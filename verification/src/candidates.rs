//! The places searched for executables that are not found on the `PATH`.
use vstd::prelude::*;
use crate::locations::{join2, join2_exec, join3, join3_exec, texts};
use crate::paths::{EnvVars, joined_path, path_join};
use crate::text::chars_eq_str;
use crate::tools::{executable_name, executable_name_spec};

verus! {

fn push_text(v: &mut Vec<String>, s: String)
    ensures
        texts(final(v)@) == texts(old(v)@).push(s@),
{
    let ghost before = v@;
    v.push(s);
    assert(texts(v@) == texts(before).push(s@));
}

/// The Obelisk builds in a development workspace.
pub open spec fn workspace_obelisk(root: Seq<char>) -> Seq<Seq<char>> {
    let target = join3(root, "obelisk"@, "src-tauri"@, "target"@);
    seq![join2(target, "release"@, "obelisk.exe"@), join2(target, "debug"@, "obelisk.exe"@)]
}

fn push_workspace_obelisk(v: &mut Vec<String>, root: &str)
    ensures
        texts(final(v)@) == texts(old(v)@) + workspace_obelisk(root@),
{
    let ghost before = texts(v@);
    let target = join3_exec(root, "obelisk", "src-tauri", "target");
    push_text(v, join2_exec(target.as_str(), "release", "obelisk.exe"));
    push_text(v, join2_exec(target.as_str(), "debug", "obelisk.exe"));
    assert(texts(v@) == before + workspace_obelisk(root@));
}

/// The places under one base directory where the downloader looks for Obelisk.
pub open spec fn base_obelisk(base: Seq<char>) -> Seq<Seq<char>> {
    seq![
        join2(base, "Obelisk"@, "obelisk.exe"@),
        join3(base, "RELIQUARY"@, "obelisk"@, "obelisk.exe"@),
        join3(base, "RELIQUARY"@, "Obelisk"@, "obelisk.exe"@),
        join3(base, "Programs"@, "Obelisk"@, "obelisk.exe"@),
        joined_path(join3(base, "Programs"@, "RELIQUARY"@, "obelisk"@), "obelisk.exe"@),
        joined_path(join3(base, "Programs"@, "RELIQUARY"@, "Obelisk"@), "obelisk.exe"@),
    ]
}

/// The places where the downloader looks for Obelisk, in order.
pub open spec fn obelisk_candidates_spec(
    env: EnvVars,
    workspace_root: Option<Seq<char>>,
    install_root: Option<Seq<char>>,
) -> Seq<Seq<char>> {
    (match workspace_root {
        Some(w) => workspace_obelisk(w),
        None => seq![],
    }) + (match install_root {
        Some(i) => seq![join2(i, "obelisk"@, "obelisk.exe"@), join2(i, "Obelisk"@, "obelisk.exe"@)],
        None => seq![],
    }) + (match env.program_files {
        Some(b) => base_obelisk(b@),
        None => seq![],
    }) + (match env.program_files_x86 {
        Some(b) => base_obelisk(b@),
        None => seq![],
    }) + (match env.local_app_data {
        Some(b) => base_obelisk(b@),
        None => seq![],
    })
}

fn push_base_obelisk(v: &mut Vec<String>, base: &Option<String>)
    ensures
        texts(final(v)@) == texts(old(v)@) + match *base {
            Some(b) => base_obelisk(b@),
            None => seq![],
        },
{
    let ghost before = texts(v@);
    match base {
        Some(b) => {
            let b = b.as_str();
            push_text(v, join2_exec(b, "Obelisk", "obelisk.exe"));
            push_text(v, join3_exec(b, "RELIQUARY", "obelisk", "obelisk.exe"));
            push_text(v, join3_exec(b, "RELIQUARY", "Obelisk", "obelisk.exe"));
            push_text(v, join3_exec(b, "Programs", "Obelisk", "obelisk.exe"));
            let p1 = join3_exec(b, "Programs", "RELIQUARY", "obelisk");
            push_text(v, path_join(p1.as_str(), "obelisk.exe"));
            let p2 = join3_exec(b, "Programs", "RELIQUARY", "Obelisk");
            push_text(v, path_join(p2.as_str(), "obelisk.exe"));
            assert(texts(v@) == before + base_obelisk(b@));
        },
        None => {
            assert(before + seq![] == before);
        },
    }
}

/// The places where the downloader looks for Obelisk, in order; the first that
/// is a file is used.
#[verifier::rlimit(40)]
pub fn obelisk_candidates(env: &EnvVars, workspace_root: Option<&str>, install_root: Option<&str>) -> (r:
    Vec<String>)
    ensures
        texts(r@) == obelisk_candidates_spec(
            *env,
            match workspace_root { Some(w) => Some(w@), None => None },
            match install_root { Some(i) => Some(i@), None => None },
        ),
{
    let mut v: Vec<String> = Vec::new();
    if let Some(w) = workspace_root {
        push_workspace_obelisk(&mut v, w);
    }
    if let Some(i) = install_root {
        push_text(&mut v, join2_exec(i, "obelisk", "obelisk.exe"));
        push_text(&mut v, join2_exec(i, "Obelisk", "obelisk.exe"));
    }
    push_base_obelisk(&mut v, &env.program_files);
    push_base_obelisk(&mut v, &env.program_files_x86);
    push_base_obelisk(&mut v, &env.local_app_data);
    assert(texts(v@) == obelisk_candidates_spec(
        *env,
        match workspace_root { Some(w) => Some(w@), None => None },
        match install_root { Some(i) => Some(i@), None => None },
    ));
    v
}

/// Where a search for a tool outside the `PATH` looks: a directory searched
/// first (down to a fixed depth), then fixed paths, the first existing one used.
pub struct CommonToolSearch {
    pub search_root: Option<String>,
    pub candidates: Vec<String>,
}

/// The fixed places searched for ffmpeg or Deno on Windows.
pub open spec fn common_tool_candidates_spec(name: Seq<char>, env: EnvVars, windows: bool) -> Seq<
    Seq<char>,
> {
    let exe = executable_name_spec(name, windows);
    if !windows {
        seq![]
    } else if name == "ffmpeg"@ {
        seq![
            joined_path("C:\\ffmpeg\\bin"@, exe),
            joined_path("C:\\ProgramData\\chocolatey\\bin"@, exe),
            joined_path("C:\\Program Files\\ffmpeg\\bin"@, exe),
        ]
    } else if name == "deno"@ {
        (match env.user_profile {
            Some(h) => seq![join3(h@, ".deno"@, "bin"@, exe), join3(h@, "scoop"@, "shims"@, exe)],
            None => seq![],
        }) + (match env.local_app_data {
            Some(l) => seq![joined_path(join3(l@, "Microsoft"@, "WinGet"@, "Links"@), exe)],
            None => seq![],
        }) + seq![joined_path("C:\\ProgramData\\chocolatey\\bin"@, exe)]
    } else {
        seq![]
    }
}

/// Where to look for ffmpeg or Deno outside the `PATH` (on Windows only).
#[verifier::rlimit(40)]
pub fn common_windows_tool_search(name: &str, env: &EnvVars, windows: bool) -> (r: CommonToolSearch)
    ensures
        texts(r.candidates@) == common_tool_candidates_spec(name@, *env, windows),
        windows && name@ == "ffmpeg"@ ==> (r.search_root matches Some(root) && root@
            == "C:\\ffmpeg"@),
        !(windows && name@ == "ffmpeg"@) ==> r.search_root is None,
{
    let mut v: Vec<String> = Vec::new();
    if !windows {
        return CommonToolSearch { search_root: None, candidates: v };
    }
    let exe = executable_name(name, windows);
    let e = exe.as_str();
    let n = crate::text::chars_of(name);
    if chars_eq_str(&n, "ffmpeg") {
        push_text(&mut v, path_join("C:\\ffmpeg\\bin", e));
        push_text(&mut v, path_join("C:\\ProgramData\\chocolatey\\bin", e));
        push_text(&mut v, path_join("C:\\Program Files\\ffmpeg\\bin", e));
        return CommonToolSearch { search_root: Some(String::from_str("C:\\ffmpeg")), candidates: v };
    }
    if chars_eq_str(&n, "deno") {
        if let Some(h) = &env.user_profile {
            push_text(&mut v, join3_exec(h.as_str(), ".deno", "bin", e));
            push_text(&mut v, join3_exec(h.as_str(), "scoop", "shims", e));
        }
        if let Some(l) = &env.local_app_data {
            let links = join3_exec(l.as_str(), "Microsoft", "WinGet", "Links");
            push_text(&mut v, path_join(links.as_str(), e));
        }
        push_text(&mut v, path_join("C:\\ProgramData\\chocolatey\\bin", e));
        assert(texts(v@) == common_tool_candidates_spec(name@, *env, windows));
    }
    CommonToolSearch { search_root: None, candidates: v }
}


proof fn lemma_in_left(a: Seq<Seq<char>>, b: Seq<Seq<char>>, x: Seq<char>)
    requires
        a.contains(x),
    ensures
        (a + b).contains(x),
{
    let i = choose|i: int| 0 <= i < a.len() && a[i] == x;
    assert((a + b)[i] == x);
}

proof fn lemma_in_right(a: Seq<Seq<char>>, b: Seq<Seq<char>>, x: Seq<char>)
    requires
        b.contains(x),
    ensures
        (a + b).contains(x),
{
    let i = choose|i: int| 0 <= i < b.len() && b[i] == x;
    assert((a + b)[a.len() + i] == x);
}

/// The six places under one base directory where an Obelisk install is looked
/// for, each written out as the joins that make it.
pub open spec fn holds_obelisk_places(v: Seq<Seq<char>>, b: Seq<char>) -> bool {
    let j = |p: Seq<char>, c: Seq<char>| joined_path(p, c);
    &&& v.contains(j(j(b, "Obelisk"@), "obelisk.exe"@))
    &&& v.contains(j(j(j(b, "RELIQUARY"@), "obelisk"@), "obelisk.exe"@))
    &&& v.contains(j(j(j(b, "RELIQUARY"@), "Obelisk"@), "obelisk.exe"@))
    &&& v.contains(j(j(j(b, "Programs"@), "Obelisk"@), "obelisk.exe"@))
    &&& v.contains(j(j(j(j(b, "Programs"@), "RELIQUARY"@), "obelisk"@), "obelisk.exe"@))
    &&& v.contains(j(j(j(j(b, "Programs"@), "RELIQUARY"@), "Obelisk"@), "obelisk.exe"@))
}

proof fn lemma_places_in(v: Seq<Seq<char>>, w: Seq<Seq<char>>, b: Seq<char>, left: bool)
    requires
        holds_obelisk_places(v, b),
    ensures
        left ==> holds_obelisk_places(v + w, b),
        !left ==> holds_obelisk_places(w + v, b),
{
    let j = |p: Seq<char>, c: Seq<char>| joined_path(p, c);
    let ps = seq![
        j(j(b, "Obelisk"@), "obelisk.exe"@),
        j(j(j(b, "RELIQUARY"@), "obelisk"@), "obelisk.exe"@),
        j(j(j(b, "RELIQUARY"@), "Obelisk"@), "obelisk.exe"@),
        j(j(j(b, "Programs"@), "Obelisk"@), "obelisk.exe"@),
        j(j(j(j(b, "Programs"@), "RELIQUARY"@), "obelisk"@), "obelisk.exe"@),
        j(j(j(j(b, "Programs"@), "RELIQUARY"@), "Obelisk"@), "obelisk.exe"@),
    ];
    assert forall|k: int| 0 <= k < 6 implies (if left { v + w } else { w + v }).contains(
        #[trigger] ps[k],
    ) by {
        assert(v.contains(ps[k]));
        if left {
            lemma_in_left(v, w, ps[k]);
        } else {
            lemma_in_right(w, v, ps[k]);
        }
    }
    assert(ps[0] == j(j(b, "Obelisk"@), "obelisk.exe"@));
    assert(ps[1] == j(j(j(b, "RELIQUARY"@), "obelisk"@), "obelisk.exe"@));
    assert(ps[2] == j(j(j(b, "RELIQUARY"@), "Obelisk"@), "obelisk.exe"@));
    assert(ps[3] == j(j(j(b, "Programs"@), "Obelisk"@), "obelisk.exe"@));
    assert(ps[4] == j(j(j(j(b, "Programs"@), "RELIQUARY"@), "obelisk"@), "obelisk.exe"@));
    assert(ps[5] == j(j(j(j(b, "Programs"@), "RELIQUARY"@), "Obelisk"@), "obelisk.exe"@));
}

/// Every listed base directory is searched: for each of `ProgramFiles`,
/// `ProgramFiles(x86)` and `LOCALAPPDATA` that is set, the candidates hold all
/// six Obelisk install places under it; a workspace adds its release and debug
/// builds, and an install root its two `obelisk.exe` places.
pub proof fn law_obelisk_candidates_cover_bases(
    env: EnvVars,
    workspace_root: Option<Seq<char>>,
    install_root: Option<Seq<char>>,
)
    ensures
        ({
            let v = obelisk_candidates_spec(env, workspace_root, install_root);
            let j = |p: Seq<char>, c: Seq<char>| joined_path(p, c);
            &&& env.program_files matches Some(b) ==> holds_obelisk_places(v, b@)
            &&& env.program_files_x86 matches Some(b) ==> holds_obelisk_places(v, b@)
            &&& env.local_app_data matches Some(b) ==> holds_obelisk_places(v, b@)
            &&& workspace_root matches Some(w) ==> {
                let target = j(j(j(w, "obelisk"@), "src-tauri"@), "target"@);
                &&& v.contains(j(j(target, "release"@), "obelisk.exe"@))
                &&& v.contains(j(j(target, "debug"@), "obelisk.exe"@))
            }
            &&& install_root matches Some(i) ==> {
                &&& v.contains(j(j(i, "obelisk"@), "obelisk.exe"@))
                &&& v.contains(j(j(i, "Obelisk"@), "obelisk.exe"@))
            }
        }),
{
    let ws = match workspace_root {
        Some(w) => workspace_obelisk(w),
        None => seq![],
    };
    let ins: Seq<Seq<char>> = match install_root {
        Some(i) => seq![join2(i, "obelisk"@, "obelisk.exe"@), join2(i, "Obelisk"@, "obelisk.exe"@)],
        None => seq![],
    };
    let pf = match env.program_files {
        Some(b) => base_obelisk(b@),
        None => seq![],
    };
    let px = match env.program_files_x86 {
        Some(b) => base_obelisk(b@),
        None => seq![],
    };
    let la = match env.local_app_data {
        Some(b) => base_obelisk(b@),
        None => seq![],
    };
    let v = obelisk_candidates_spec(env, workspace_root, install_root);
    assert(v == ws + ins + pf + px + la);
    if let Some(b) = env.program_files {
        let bo = base_obelisk(b@);
        assert(bo.contains(bo[0]) && bo.contains(bo[1]) && bo.contains(bo[2]) && bo.contains(bo[3])
            && bo.contains(bo[4]) && bo.contains(bo[5]));
        assert(holds_obelisk_places(pf, b@));
        lemma_places_in(pf, ws + ins, b@, false);
        lemma_places_in(ws + ins + pf, px, b@, true);
        lemma_places_in(ws + ins + pf + px, la, b@, true);
    }
    if let Some(b) = env.program_files_x86 {
        let bo = base_obelisk(b@);
        assert(bo.contains(bo[0]) && bo.contains(bo[1]) && bo.contains(bo[2]) && bo.contains(bo[3])
            && bo.contains(bo[4]) && bo.contains(bo[5]));
        assert(holds_obelisk_places(px, b@));
        lemma_places_in(px, ws + ins + pf, b@, false);
        lemma_places_in(ws + ins + pf + px, la, b@, true);
    }
    if let Some(b) = env.local_app_data {
        let bo = base_obelisk(b@);
        assert(bo.contains(bo[0]) && bo.contains(bo[1]) && bo.contains(bo[2]) && bo.contains(bo[3])
            && bo.contains(bo[4]) && bo.contains(bo[5]));
        assert(holds_obelisk_places(la, b@));
        lemma_places_in(la, ws + ins + pf + px, b@, false);
    }
    if let Some(w) = workspace_root {
        assert(ws.contains(ws[0]) && ws.contains(ws[1]));
        lemma_in_left(ws, ins, ws[0]);
        lemma_in_left(ws, ins, ws[1]);
        lemma_in_left(ws + ins, pf, ws[0]);
        lemma_in_left(ws + ins, pf, ws[1]);
        lemma_in_left(ws + ins + pf, px, ws[0]);
        lemma_in_left(ws + ins + pf, px, ws[1]);
        lemma_in_left(ws + ins + pf + px, la, ws[0]);
        lemma_in_left(ws + ins + pf + px, la, ws[1]);
    }
    if let Some(i) = install_root {
        assert(ins.contains(ins[0]) && ins.contains(ins[1]));
        lemma_in_right(ws, ins, ins[0]);
        lemma_in_right(ws, ins, ins[1]);
        lemma_in_left(ws + ins, pf, ins[0]);
        lemma_in_left(ws + ins, pf, ins[1]);
        lemma_in_left(ws + ins + pf, px, ins[0]);
        lemma_in_left(ws + ins + pf, px, ins[1]);
        lemma_in_left(ws + ins + pf + px, la, ins[0]);
        lemma_in_left(ws + ins + pf + px, la, ins[1]);
    }
}

} // verus!
