//! The directories and executables the application looks for, derived from the
//! environment it runs in.
use vstd::prelude::*;
use crate::paths::{
    EnvVars, home_dir, home_dir_spec, joined_path, parent_path, path_has_prefix, path_join,
    path_parent, path_starts_with,
};
use crate::text::{
    ascii_lower, ascii_lower_chars, chars_eq_str, chars_of, ends_with, ends_with_chars, string_of,
    trim, trim_chars,
};
use crate::tools::{executable_name, executable_name_spec};

verus! {

/// The text of an optional string.
pub open spec fn opt_view(o: Option<String>) -> Option<Seq<char>> {
    match o {
        Some(s) => Some(s@),
        None => None,
    }
}

/// `base/a/b`.
pub open spec fn join2(base: Seq<char>, a: Seq<char>, b: Seq<char>) -> Seq<char> {
    joined_path(joined_path(base, a), b)
}

/// `base/a/b/c`.
pub open spec fn join3(base: Seq<char>, a: Seq<char>, b: Seq<char>, c: Seq<char>) -> Seq<char> {
    joined_path(join2(base, a, b), c)
}

pub(crate) fn join2_exec(base: &str, a: &str, b: &str) -> (r: String)
    ensures
        r@ == join2(base@, a@, b@),
{
    let x = path_join(base, a);
    path_join(x.as_str(), b)
}

pub(crate) fn join3_exec(base: &str, a: &str, b: &str, c: &str) -> (r: String)
    ensures
        r@ == join3(base@, a@, b@, c@),
{
    let x = join2_exec(base, a, b);
    path_join(x.as_str(), c)
}

/// The message when no user data directory can be found.
pub open spec fn no_data_dir_message() -> Seq<char> {
    "Unable to find a user data directory for Daedalus tools"@
}

/// The suite's data root: `RELIQUARY` under `LOCALAPPDATA`, else under
/// `XDG_DATA_HOME`, else under `HOME/.local/share`.
pub open spec fn user_root_spec(env: EnvVars) -> Result<Seq<char>, Seq<char>> {
    match env.local_app_data {
        Some(b) => Ok(joined_path(b@, "RELIQUARY"@)),
        None => match env.xdg_data_home {
            Some(b) => Ok(joined_path(b@, "RELIQUARY"@)),
            None => match env.home {
                Some(h) => Ok(joined_path(join2(h@, ".local"@, "share"@), "RELIQUARY"@)),
                None => Err(no_data_dir_message()),
            },
        },
    }
}

/// The suite's data root directory.
pub fn user_reliquary_root(env: &EnvVars) -> (r: Result<String, String>)
    ensures
        r is Ok <==> user_root_spec(*env) is Ok,
        r matches Ok(p) ==> user_root_spec(*env) == Ok::<Seq<char>, Seq<char>>(p@),
        r matches Err(e) ==> user_root_spec(*env) == Err::<Seq<char>, Seq<char>>(e@),
{
    let base = match &env.local_app_data {
        Some(b) => b.clone(),
        None => match &env.xdg_data_home {
            Some(b) => b.clone(),
            None => match &env.home {
                Some(h) => join2_exec(h.as_str(), ".local", "share"),
                None => {
                    return Err(
                        String::from_str("Unable to find a user data directory for Daedalus tools"),
                    )
                },
            },
        },
    };
    Ok(path_join(base.as_str(), "RELIQUARY"))
}

/// `part` adjoined to a directory that may not have been found.
pub open spec fn under(dir: Result<Seq<char>, Seq<char>>, part: Seq<char>) -> Result<
    Seq<char>,
    Seq<char>,
> {
    match dir {
        Ok(d) => Ok(joined_path(d, part)),
        Err(e) => Err(e),
    }
}

/// The application's data directory: `Daedalus` under the suite's data root.
pub open spec fn app_data_spec(env: EnvVars) -> Result<Seq<char>, Seq<char>> {
    under(user_root_spec(env), "Daedalus"@)
}

fn under_exec(dir: Result<String, String>, part: &str) -> (r: Result<String, String>)
    ensures
        match dir {
            Ok(d) => r matches Ok(p) && p@ == joined_path(d@, part@),
            Err(e) => r == Err::<String, String>(e),
        },
{
    match dir {
        Ok(d) => Ok(path_join(d.as_str(), part)),
        Err(e) => Err(e),
    }
}

/// The application's data directory.
pub fn app_data_dir(env: &EnvVars) -> (r: Result<String, String>)
    ensures
        r is Ok <==> app_data_spec(*env) is Ok,
        r matches Ok(p) ==> app_data_spec(*env) == Ok::<Seq<char>, Seq<char>>(p@),
        r matches Err(e) ==> app_data_spec(*env) == Err::<Seq<char>, Seq<char>>(e@),
{
    under_exec(user_reliquary_root(env), "Daedalus")
}

/// The directory where downloads are assembled: `temp` in the data directory.
pub fn temp_download_dir(env: &EnvVars) -> (r: Result<String, String>)
    ensures
        r is Ok <==> app_data_spec(*env) is Ok,
        r matches Ok(p) ==> under(app_data_spec(*env), "temp"@) == Ok::<Seq<char>, Seq<char>>(p@),
        r matches Err(e) ==> app_data_spec(*env) == Err::<Seq<char>, Seq<char>>(e@),
{
    under_exec(app_data_dir(env), "temp")
}

/// The directory of the download archive: `archives` in the data directory.
pub fn archive_dir(env: &EnvVars) -> (r: Result<String, String>)
    ensures
        r is Ok <==> app_data_spec(*env) is Ok,
        r matches Ok(p) ==> under(app_data_spec(*env), "archives"@) == Ok::<Seq<char>, Seq<char>>(
            p@,
        ),
        r matches Err(e) ==> app_data_spec(*env) == Err::<Seq<char>, Seq<char>>(e@),
{
    under_exec(app_data_dir(env), "archives")
}

/// The download archive file in its directory.
pub fn archive_file_in(dir: &str) -> (r: String)
    ensures
        r@ == joined_path(dir@, "downloads.txt"@),
{
    path_join(dir, "downloads.txt")
}

/// Where managed tools were installed by earlier versions: `tools/bin` in the data
/// directory.
pub open spec fn legacy_tool_path_spec(env: EnvVars, name: Seq<char>, windows: bool) -> Result<
    Seq<char>,
    Seq<char>,
> {
    match app_data_spec(env) {
        Ok(d) => Ok(joined_path(join2(d, "tools"@, "bin"@), executable_name_spec(name, windows))),
        Err(e) => Err(e),
    }
}

/// The path of a tool installed by earlier versions.
pub fn legacy_managed_tool_path(env: &EnvVars, name: &str, windows: bool) -> (r: Result<
    String,
    String,
>)
    ensures
        r is Ok <==> legacy_tool_path_spec(*env, name@, windows) is Ok,
        r matches Ok(p) ==> legacy_tool_path_spec(*env, name@, windows) == Ok::<
            Seq<char>,
            Seq<char>,
        >(p@),
        r matches Err(e) ==> legacy_tool_path_spec(*env, name@, windows) == Err::<
            Seq<char>,
            Seq<char>,
        >(e@),
{
    let dir = match app_data_dir(env) {
        Ok(d) => d,
        Err(e) => return Err(e),
    };
    let bin = join2_exec(dir.as_str(), "tools", "bin");
    let exe = executable_name(name, windows);
    Ok(path_join(bin.as_str(), exe.as_str()))
}

/// The directory for managed tools: `bin` under `RELIQUARY_TOOLCHAIN_DIR` when it
/// is set and not blank, else `toolchain/bin` under the development workspace,
/// the installation root, or the suite's data root, whichever is found first.
pub open spec fn tools_bin_spec(
    env: EnvVars,
    workspace_root: Option<Seq<char>>,
    install_root: Option<Seq<char>>,
) -> Result<Seq<char>, Seq<char>> {
    if env.toolchain_dir is Some && trim(env.toolchain_dir->0@).len() > 0 {
        Ok(joined_path(trim(env.toolchain_dir->0@), "bin"@))
    } else if workspace_root is Some {
        Ok(join2(workspace_root->0, "toolchain"@, "bin"@))
    } else if install_root is Some {
        Ok(join2(install_root->0, "toolchain"@, "bin"@))
    } else {
        match user_root_spec(env) {
            Ok(r) => Ok(join2(r, "toolchain"@, "bin"@)),
            Err(e) => Err(e),
        }
    }
}

/// The directory for managed tools.
pub fn tools_bin_dir(env: &EnvVars, workspace_root: Option<&str>, install_root: Option<&str>) -> (r:
    Result<String, String>)
    ensures
        ({
            let spec = tools_bin_spec(
                *env,
                match workspace_root { Some(w) => Some(w@), None => None },
                match install_root { Some(i) => Some(i@), None => None },
            );
            &&& r is Ok <==> spec is Ok
            &&& r matches Ok(p) ==> spec == Ok::<Seq<char>, Seq<char>>(p@)
            &&& r matches Err(e) ==> spec == Err::<Seq<char>, Seq<char>>(e@)
        }),
{
    if let Some(t) = &env.toolchain_dir {
        let cs = chars_of(t.as_str());
        let trimmed = trim_chars(&cs);
        if trimmed.len() > 0 {
            let dir = string_of(&trimmed);
            return Ok(path_join(dir.as_str(), "bin"));
        }
    }
    if let Some(w) = workspace_root {
        return Ok(join2_exec(w, "toolchain", "bin"));
    }
    if let Some(i) = install_root {
        return Ok(join2_exec(i, "toolchain", "bin"));
    }
    match user_reliquary_root(env) {
        Ok(r) => Ok(join2_exec(r.as_str(), "toolchain", "bin")),
        Err(e) => Err(e),
    }
}

/// `[x]` for a found value, nothing otherwise.
pub open spec fn found<T>(r: Result<T, Seq<char>>) -> Seq<T> {
    match r {
        Ok(x) => seq![x],
        Err(_) => seq![],
    }
}

/// `[x]` for a present value, nothing otherwise.
pub open spec fn present<T>(o: Option<T>) -> Seq<T> {
    match o {
        Some(x) => seq![x],
        None => seq![],
    }
}

/// The directories that hold managed tools, in the order they are searched.
pub open spec fn managed_dirs_spec(
    env: EnvVars,
    workspace_root: Option<Seq<char>>,
    install_root: Option<Seq<char>>,
    windows: bool,
) -> Seq<Seq<char>> {
    found(tools_bin_spec(env, workspace_root, install_root)) + present(
        match workspace_root {
            Some(w) => Some(join2(w, "toolchain"@, "bin"@)),
            None => None,
        },
    ) + present(
        match install_root {
            Some(i) => Some(join2(i, "toolchain"@, "bin"@)),
            None => None,
        },
    ) + found(
        match user_root_spec(env) {
            Ok(r) => Ok(join2(r, "toolchain"@, "bin"@)),
            Err(e) => Err(e),
        },
    ) + present(
        match env.program_files {
            Some(b) => Some(join3(b@, "Reliquary"@, "toolchain"@, "bin"@)),
            None => None,
        },
    ) + present(
        match legacy_tool_path_spec(env, "placeholder"@, windows) {
            Ok(p) => parent_path(p),
            Err(_) => None,
        },
    )
}

/// The text of the strings in `v`.
pub open spec fn texts(v: Seq<String>) -> Seq<Seq<char>> {
    v.map_values(|s: String| s@)
}

fn push_text(v: &mut Vec<String>, s: String)
    ensures
        texts(final(v)@) == texts(old(v)@).push(s@),
{
    let ghost before = v@;
    v.push(s);
    assert(texts(v@) == texts(before).push(s@));
}

/// The directories that hold managed tools, in the order they are searched.
#[verifier::rlimit(40)]
pub fn managed_tool_bin_dirs(
    env: &EnvVars,
    workspace_root: Option<&str>,
    install_root: Option<&str>,
    windows: bool,
) -> (r: Vec<String>)
    ensures
        texts(r@) == managed_dirs_spec(
            *env,
            match workspace_root { Some(w) => Some(w@), None => None },
            match install_root { Some(i) => Some(i@), None => None },
            windows,
        ),
{
    let ghost ws = match workspace_root { Some(w) => Some(w@), None => None };
    let ghost ins = match install_root { Some(i) => Some(i@), None => None };
    let mut v: Vec<String> = Vec::new();
    match tools_bin_dir(env, workspace_root, install_root) {
        Ok(p) => push_text(&mut v, p),
        Err(_) => {},
    }
    let ghost a = texts(v@);
    assert(a == found(tools_bin_spec(*env, ws, ins)));
    if let Some(w) = workspace_root {
        push_text(&mut v, join2_exec(w, "toolchain", "bin"));
    }
    if let Some(i) = install_root {
        push_text(&mut v, join2_exec(i, "toolchain", "bin"));
    }
    match user_reliquary_root(env) {
        Ok(r) => push_text(&mut v, join2_exec(r.as_str(), "toolchain", "bin")),
        Err(_) => {},
    }
    if let Some(base) = &env.program_files {
        push_text(&mut v, join3_exec(base.as_str(), "Reliquary", "toolchain", "bin"));
    }
    match legacy_managed_tool_path(env, "placeholder", windows) {
        Ok(p) => match path_parent(p.as_str()) {
            Some(dir) => push_text(&mut v, dir),
            None => {},
        },
        Err(_) => {},
    }
    proof {
        reveal_strlit("placeholder");
    }
    assert(texts(v@) == managed_dirs_spec(*env, ws, ins, windows));
    v
}

/// The paths a tool may have among the managed directories.
pub fn managed_tool_candidates(name: &str, dirs: &Vec<String>, windows: bool) -> (r: Vec<String>)
    ensures
        r@.len() == dirs@.len(),
        forall|i: int|
            0 <= i < dirs@.len() ==> (#[trigger] r@[i])@ == joined_path(
                dirs@[i]@,
                executable_name_spec(name@, windows),
            ),
{
    let exe = executable_name(name, windows);
    let mut out: Vec<String> = Vec::new();
    for i in 0..dirs.len()
        invariant
            exe@ == executable_name_spec(name@, windows),
            out@.len() == i,
            forall|j: int|
                0 <= j < i ==> (#[trigger] out@[j])@ == joined_path(
                    dirs@[j]@,
                    executable_name_spec(name@, windows),
                ),
    {
        out.push(path_join(dirs[i].as_str(), exe.as_str()));
    }
    out
}

/// Whether a tool's path lies in one of the managed directories.
pub fn is_managed_tool_path(path: &str, dirs: &Vec<String>) -> (r: bool)
    ensures
        r == exists|i: int| 0 <= i < dirs@.len() && path_has_prefix(path@, (#[trigger] dirs@[i])@),
{
    for i in 0..dirs.len()
        invariant
            forall|j: int| 0 <= j < i ==> !path_has_prefix(path@, (#[trigger] dirs@[j])@),
    {
        if path_starts_with(path, dirs[i].as_str()) {
            return true;
        }
    }
    false
}

/// Where downloads go unless the user says otherwise: `Downloads/Daedalus` in
/// the home directory.
pub fn default_output_dir(env: &EnvVars) -> (r: String)
    ensures
        r@ == join2(home_dir_spec(*env), "Downloads"@, "Daedalus"@),
{
    let home = home_dir(env);
    join2_exec(home.as_str(), "Downloads", "Daedalus")
}

/// The installation root when the running executable's directory is one of the
/// suite's applications (names compared ignoring ASCII case).
pub fn install_root_for(app_dir_name: &str, root: String) -> (r: Option<String>)
    ensures
        ({
            let n = ascii_lower(app_dir_name@);
            if n == "daedalus"@ || n == "chronos"@ || n == "obelisk"@ {
                r == Some(root)
            } else {
                r is None
            }
        }),
{
    let cs = chars_of(app_dir_name);
    let n = ascii_lower_chars(&cs);
    if chars_eq_str(&n, "daedalus") || chars_eq_str(&n, "chronos") || chars_eq_str(&n, "obelisk") {
        Some(root)
    } else {
        None
    }
}

/// Whether a file left in a download directory is an unfinished download.
pub fn is_temporary_download(file_name: &str) -> (r: bool)
    ensures
        r == (ends_with(file_name@, ".part"@) || ends_with(file_name@, ".ytdl"@) || ends_with(
            file_name@,
            ".temp"@,
        )),
{
    let n = chars_of(file_name);
    let part = chars_of(".part");
    let ytdl = chars_of(".ytdl");
    let temp = chars_of(".temp");
    ends_with_chars(&n, &part) || ends_with_chars(&n, &ytdl) || ends_with_chars(&n, &temp)
}

} // verus!
