//! Whether the application may start: the licence check done through Obelisk.
use vstd::prelude::*;
use crate::candidates::workspace_obelisk;
use crate::locations::{join2, join2_exec, join3, join3_exec, texts};
use crate::output::{lossy_text, utf8_lossy};
use crate::paths::{EnvVars, joined_path, path_join};
use crate::text::{
    chars_eq_str, chars_of, contains, contains_chars, eq_ignore_ascii_case_chars, push_all,
    same_ignoring_ascii_case, string_of, trim, trim_chars,
};

verus! {

/// What the start-up check has learned so far.
pub enum LaunchEvent {
    /// The application is starting: whether this is a debug build, and whether
    /// Obelisk launched it with a licence file that exists.
    Started { debug_build: bool, launched_with_license_file: bool },
    /// Obelisk answered the licence check.
    Validated { outcome: Result<(), String> },
}

/// What the start-up check does next.
pub enum LaunchAction {
    /// Start the application.
    Allow,
    /// Ask Obelisk to check the licence, and report its answer.
    ValidateLicense,
    /// Start Obelisk unless it is running, then start the application.
    AllowAndEnsureObelisk,
    /// Open Obelisk, show the licence error with this detail, and do not start.
    Deny { detail: String },
}

/// The next action for an event.
pub open spec fn launch_step(event: LaunchEvent) -> LaunchAction {
    match event {
        LaunchEvent::Started { debug_build, launched_with_license_file } => if debug_build
            || launched_with_license_file {
            LaunchAction::Allow
        } else {
            LaunchAction::ValidateLicense
        },
        LaunchEvent::Validated { outcome } => match outcome {
            Ok(()) => LaunchAction::AllowAndEnsureObelisk,
            Err(detail) => LaunchAction::Deny { detail },
        },
    }
}

/// Decides the next step of the start-up check.
pub fn launch_allowed(event: LaunchEvent) -> (r: LaunchAction)
    ensures
        r == launch_step(event),
{
    match event {
        LaunchEvent::Started { debug_build, launched_with_license_file } => {
            if debug_build || launched_with_license_file {
                LaunchAction::Allow
            } else {
                LaunchAction::ValidateLicense
            }
        },
        LaunchEvent::Validated { outcome } => match outcome {
            Ok(()) => LaunchAction::AllowAndEnsureObelisk,
            Err(detail) => LaunchAction::Deny { detail },
        },
    }
}

/// The action starts the application.
pub open spec fn starts_app(a: LaunchAction) -> bool {
    a is Allow || a is AllowAndEnsureObelisk
}

/// The action the check ends with, when Obelisk gives `outcome` if asked.
pub open spec fn launch_result(debug_build: bool, launched_with_license_file: bool, outcome: Result<
    (),
    String,
>) -> LaunchAction {
    let first = launch_step(
        LaunchEvent::Started { debug_build, launched_with_license_file },
    );
    if first is ValidateLicense {
        launch_step(LaunchEvent::Validated { outcome })
    } else {
        first
    }
}

/// The application starts exactly when it is a debug build, or Obelisk launched
/// it with a licence file, or Obelisk accepts the licence; Obelisk is asked only
/// in the last case, and a refusal is reported with Obelisk's own detail.
pub proof fn law_launch_decision(
    debug_build: bool,
    launched_with_license_file: bool,
    outcome: Result<(), String>,
)
    ensures
        starts_app(launch_result(debug_build, launched_with_license_file, outcome)) <==> (
        debug_build || launched_with_license_file || outcome is Ok),
        (launch_step(LaunchEvent::Started { debug_build, launched_with_license_file })
            is ValidateLicense) <==> !(debug_build || launched_with_license_file),
        launch_result(debug_build, launched_with_license_file, outcome) matches LaunchAction::Deny {
            detail,
        } ==> outcome == Err::<(), String>(detail),
{
}

/// Whether Obelisk launched the application with a licence file: the launch flag
/// is exactly `1` and the licence file exists.
pub fn launched_from_obelisk(launch_flag: Option<&str>, license_file_is_file: bool) -> (r: bool)
    ensures
        r == (launch_flag matches Some(f) && f@ == "1"@ && license_file_is_file),
{
    match launch_flag {
        Some(f) => {
            let cs = chars_of(f);
            chars_eq_str(&cs, "1") && license_file_is_file
        },
        None => false,
    }
}

/// The message for a refused licence check, when Obelisk gave no detail.
pub open spec fn no_license_message() -> Seq<char> {
    "No valid RELIQUARY license is activated for this app."@
}

/// Obelisk's answer to the licence check: accepted when it succeeded; otherwise
/// refused with its trimmed standard error, else its trimmed standard output,
/// else a fixed message.
pub open spec fn license_outcome_spec(success: bool, stderr: Seq<u8>, stdout: Seq<u8>) -> Result<
    (),
    Seq<char>,
> {
    let e = trim(lossy_text(stderr));
    let o = trim(lossy_text(stdout));
    if success {
        Ok(())
    } else if e.len() > 0 {
        Err(e)
    } else if o.len() > 0 {
        Err(o)
    } else {
        Err(no_license_message())
    }
}

/// Reads Obelisk's answer to the licence check.
pub fn license_check_outcome(success: bool, stderr: &[u8], stdout: &[u8]) -> (r: Result<(), String>)
    ensures
        r is Ok <==> license_outcome_spec(success, stderr@, stdout@) is Ok,
        r matches Err(e) ==> license_outcome_spec(success, stderr@, stdout@) == Err::<
            (),
            Seq<char>,
        >(e@),
{
    if success {
        return Ok(());
    }
    let es = utf8_lossy(stderr);
    let ec = chars_of(es.as_str());
    let e = trim_chars(&ec);
    let os = utf8_lossy(stdout);
    let oc = chars_of(os.as_str());
    let o = trim_chars(&oc);
    if e.len() > 0 {
        Err(string_of(&e))
    } else if o.len() > 0 {
        Err(string_of(&o))
    } else {
        Err(String::from_str("No valid RELIQUARY license is activated for this app."))
    }
}

fn build3(a: &str, b: &str, c: &str, d: &str) -> (r: String)
    ensures
        r@ == a@ + b@ + c@ + d@,
{
    let mut v = chars_of(a);
    let bv = chars_of(b);
    push_all(&mut v, &bv);
    let cv = chars_of(c);
    push_all(&mut v, &cv);
    let dv = chars_of(d);
    push_all(&mut v, &dv);
    string_of(&v)
}

/// The licence error printed where no dialog can be shown.
pub fn license_error_console(app_name: &str, detail: &str) -> (r: String)
    ensures
        r@ == "No valid RELIQUARY license is activated for "@ + app_name@
            + ". Open Obelisk and activate or refresh a Suite license. Details: "@ + detail@,
{
    build3(
        "No valid RELIQUARY license is activated for ",
        app_name,
        ". Open Obelisk and activate or refresh a Suite license. Details: ",
        detail,
    )
}

/// The text and caption of the licence error dialog.
pub fn license_error_dialog(app_name: &str, detail: &str) -> (r: (String, String))
    ensures
        r.0@ == "No valid RELIQUARY license is activated for "@ + app_name@
            + ".\n\nOpen Obelisk and activate or refresh a Suite license.\n\nDetails: "@ + detail@,
        r.1@ == app_name@ + " - RELIQUARY license required"@,
{
    let text = build3(
        "No valid RELIQUARY license is activated for ",
        app_name,
        ".\n\nOpen Obelisk and activate or refresh a Suite license.\n\nDetails: ",
        detail,
    );
    let mut caption = String::from_str(app_name);
    caption.append(" - RELIQUARY license required");
    (text, caption)
}

/// The filter given to `tasklist` to look for an executable.
pub fn tasklist_filter(exe_name: &str) -> (r: String)
    ensures
        r@ == "IMAGENAME eq "@ + exe_name@,
{
    let mut s = String::from_str("IMAGENAME eq ");
    s.append(exe_name);
    s
}

/// Whether `tasklist`'s output names the executable.
pub fn tasklist_lists(stdout: &[u8], exe_name: &str) -> (r: bool)
    ensures
        r == contains(lossy_text(stdout@), exe_name@),
{
    let text = utf8_lossy(stdout);
    let t = chars_of(text.as_str());
    let n = chars_of(exe_name);
    contains_chars(&t, &n)
}

/// Whether the running executable's directory is the application's own (names
/// compared ignoring ASCII case); its parent is then the installation root.
pub fn app_dir_is(app_dir_name: &str, app_slug: &str) -> (r: bool)
    ensures
        r == same_ignoring_ascii_case(app_dir_name@, app_slug@),
{
    let a = chars_of(app_dir_name);
    let b = chars_of(app_slug);
    eq_ignore_ascii_case_chars(&a, &b)
}

/// The places under one base directory where the licence check looks for Obelisk.
pub open spec fn guard_base_obelisk(base: Seq<char>) -> Seq<Seq<char>> {
    seq![
        join3(base, "Reliquary"@, "Obelisk"@, "obelisk.exe"@),
        join3(base, "RELIQUARY"@, "Obelisk"@, "obelisk.exe"@),
        join2(base, "Obelisk"@, "obelisk.exe"@),
        join3(base, "Programs"@, "Obelisk"@, "obelisk.exe"@),
        joined_path(join3(base, "Programs"@, "Reliquary"@, "Obelisk"@), "obelisk.exe"@),
        joined_path(join3(base, "Programs"@, "RELIQUARY"@, "Obelisk"@), "obelisk.exe"@),
    ]
}

/// The places where the licence check looks for Obelisk, in order.
pub open spec fn guard_obelisk_candidates_spec(
    env: EnvVars,
    workspace_root: Option<Seq<char>>,
    install_root: Option<Seq<char>>,
) -> Seq<Seq<char>> {
    (match workspace_root {
        Some(w) => workspace_obelisk(w),
        None => seq![],
    }) + (match install_root {
        Some(i) => seq![join2(i, "Obelisk"@, "obelisk.exe"@), join2(i, "obelisk"@, "obelisk.exe"@)],
        None => seq![],
    }) + (match env.program_files {
        Some(b) => guard_base_obelisk(b@),
        None => seq![],
    }) + (match env.program_files_x86 {
        Some(b) => guard_base_obelisk(b@),
        None => seq![],
    }) + (match env.local_app_data {
        Some(b) => guard_base_obelisk(b@),
        None => seq![],
    })
}

fn push_text(v: &mut Vec<String>, s: String)
    ensures
        texts(final(v)@) == texts(old(v)@).push(s@),
{
    let ghost before = v@;
    v.push(s);
    assert(texts(v@) == texts(before).push(s@));
}

fn push_guard_base(v: &mut Vec<String>, base: &Option<String>)
    ensures
        texts(final(v)@) == texts(old(v)@) + match *base {
            Some(b) => guard_base_obelisk(b@),
            None => seq![],
        },
{
    let ghost before = texts(v@);
    match base {
        Some(b) => {
            let b = b.as_str();
            push_text(v, join3_exec(b, "Reliquary", "Obelisk", "obelisk.exe"));
            push_text(v, join3_exec(b, "RELIQUARY", "Obelisk", "obelisk.exe"));
            push_text(v, join2_exec(b, "Obelisk", "obelisk.exe"));
            push_text(v, join3_exec(b, "Programs", "Obelisk", "obelisk.exe"));
            let p1 = join3_exec(b, "Programs", "Reliquary", "Obelisk");
            push_text(v, path_join(p1.as_str(), "obelisk.exe"));
            let p2 = join3_exec(b, "Programs", "RELIQUARY", "Obelisk");
            push_text(v, path_join(p2.as_str(), "obelisk.exe"));
            assert(texts(v@) == before + guard_base_obelisk(b@));
        },
        None => {
            assert(before + seq![] == before);
        },
    }
}

/// The places where the licence check looks for Obelisk, in order; the first
/// that is a file is used.
#[verifier::rlimit(40)]
pub fn guard_obelisk_candidates(
    env: &EnvVars,
    workspace_root: Option<&str>,
    install_root: Option<&str>,
) -> (r: Vec<String>)
    ensures
        texts(r@) == guard_obelisk_candidates_spec(
            *env,
            match workspace_root { Some(w) => Some(w@), None => None },
            match install_root { Some(i) => Some(i@), None => None },
        ),
{
    let mut v: Vec<String> = Vec::new();
    if let Some(w) = workspace_root {
        let ghost before = texts(v@);
        let target = join3_exec(w, "obelisk", "src-tauri", "target");
        push_text(&mut v, join2_exec(target.as_str(), "release", "obelisk.exe"));
        push_text(&mut v, join2_exec(target.as_str(), "debug", "obelisk.exe"));
        assert(texts(v@) == before + workspace_obelisk(w@));
    }
    if let Some(i) = install_root {
        push_text(&mut v, join2_exec(i, "Obelisk", "obelisk.exe"));
        push_text(&mut v, join2_exec(i, "obelisk", "obelisk.exe"));
    }
    push_guard_base(&mut v, &env.program_files);
    push_guard_base(&mut v, &env.program_files_x86);
    push_guard_base(&mut v, &env.local_app_data);
    assert(texts(v@) == guard_obelisk_candidates_spec(
        *env,
        match workspace_root { Some(w) => Some(w@), None => None },
        match install_root { Some(i) => Some(i@), None => None },
    ));
    v
}


proof fn lemma_in_left(a: Seq<Seq<char>>, b: Seq<Seq<char>>, x: Seq<char>)
    requires
        a.contains(x),
    ensures
        (a + b).contains(x),
{
    let i = choose|i: int| 0 <= i < a.len() && a[i] == x;
    assert((a + b)[i] == x);
}

proof fn lemma_in_right(a: Seq<Seq<char>>, b: Seq<Seq<char>>, x: Seq<char>)
    requires
        b.contains(x),
    ensures
        (a + b).contains(x),
{
    let i = choose|i: int| 0 <= i < b.len() && b[i] == x;
    assert((a + b)[a.len() + i] == x);
}

/// The six places under one base directory where the licence check looks for
/// an Obelisk install, each written out as the joins that make it.
pub open spec fn guard_places(b: Seq<char>) -> Seq<Seq<char>> {
    let j = |p: Seq<char>, c: Seq<char>| joined_path(p, c);
    seq![
        j(j(j(b, "Reliquary"@), "Obelisk"@), "obelisk.exe"@),
        j(j(j(b, "RELIQUARY"@), "Obelisk"@), "obelisk.exe"@),
        j(j(b, "Obelisk"@), "obelisk.exe"@),
        j(j(j(b, "Programs"@), "Obelisk"@), "obelisk.exe"@),
        j(j(j(j(b, "Programs"@), "Reliquary"@), "Obelisk"@), "obelisk.exe"@),
        j(j(j(j(b, "Programs"@), "RELIQUARY"@), "Obelisk"@), "obelisk.exe"@),
    ]
}

/// Every item of `ps` is in `v`.
pub open spec fn holds_all(v: Seq<Seq<char>>, ps: Seq<Seq<char>>) -> bool {
    forall|k: int| 0 <= k < ps.len() ==> v.contains(#[trigger] ps[k])
}

proof fn lemma_all_in(v: Seq<Seq<char>>, w: Seq<Seq<char>>, ps: Seq<Seq<char>>)
    requires
        holds_all(v, ps),
    ensures
        holds_all(v + w, ps),
        holds_all(w + v, ps),
{
    assert forall|k: int| 0 <= k < ps.len() implies (v + w).contains(#[trigger] ps[k]) by {
        lemma_in_left(v, w, ps[k]);
    }
    assert forall|k: int| 0 <= k < ps.len() implies (w + v).contains(#[trigger] ps[k]) by {
        lemma_in_right(w, v, ps[k]);
    }
}

/// Every listed base directory is searched by the licence check: for each of
/// `ProgramFiles`, `ProgramFiles(x86)` and `LOCALAPPDATA` that is set, the
/// candidates hold all six Obelisk install places under it.
pub proof fn law_guard_candidates_cover_bases(
    env: EnvVars,
    workspace_root: Option<Seq<char>>,
    install_root: Option<Seq<char>>,
)
    ensures
        ({
            let v = guard_obelisk_candidates_spec(env, workspace_root, install_root);
            &&& env.program_files matches Some(b) ==> holds_all(v, guard_places(b@))
            &&& env.program_files_x86 matches Some(b) ==> holds_all(v, guard_places(b@))
            &&& env.local_app_data matches Some(b) ==> holds_all(v, guard_places(b@))
        }),
{
    let ws = match workspace_root {
        Some(w) => workspace_obelisk(w),
        None => seq![],
    };
    let ins: Seq<Seq<char>> = match install_root {
        Some(i) => seq![join2(i, "Obelisk"@, "obelisk.exe"@), join2(i, "obelisk"@, "obelisk.exe"@)],
        None => seq![],
    };
    let pf = match env.program_files {
        Some(b) => guard_base_obelisk(b@),
        None => seq![],
    };
    let px = match env.program_files_x86 {
        Some(b) => guard_base_obelisk(b@),
        None => seq![],
    };
    let la = match env.local_app_data {
        Some(b) => guard_base_obelisk(b@),
        None => seq![],
    };
    assert(guard_obelisk_candidates_spec(env, workspace_root, install_root) == ws + ins + pf + px
        + la);
    if let Some(b) = env.program_files {
        let g = guard_base_obelisk(b@);
        assert forall|k: int| 0 <= k < 6 implies g.contains(#[trigger] guard_places(b@)[k]) by {
            assert(g[k] == guard_places(b@)[k]);
        }
        lemma_all_in(pf, ws + ins, guard_places(b@));
        lemma_all_in(ws + ins + pf, px, guard_places(b@));
        lemma_all_in(ws + ins + pf + px, la, guard_places(b@));
    }
    if let Some(b) = env.program_files_x86 {
        let g = guard_base_obelisk(b@);
        assert forall|k: int| 0 <= k < 6 implies g.contains(#[trigger] guard_places(b@)[k]) by {
            assert(g[k] == guard_places(b@)[k]);
        }
        lemma_all_in(px, ws + ins + pf, guard_places(b@));
        lemma_all_in(ws + ins + pf + px, la, guard_places(b@));
    }
    if let Some(b) = env.local_app_data {
        let g = guard_base_obelisk(b@);
        assert forall|k: int| 0 <= k < 6 implies g.contains(#[trigger] guard_places(b@)[k]) by {
            assert(g[k] == guard_places(b@)[k]);
        }
        lemma_all_in(la, ws + ins + pf + px, guard_places(b@));
    }
}

} // verus!
