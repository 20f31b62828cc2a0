//! Where the application's files live, derived from the environment it runs in.
use vstd::prelude::*;
use crate::text::{chars_of, string_of, trim, trim_chars, same_ignoring_ascii_case, eq_ignore_ascii_case_chars};

verus! {

/// What `Path::join` gives for `base` and `part`, read back as text, on the
/// platform this crate is built for.
pub uninterp spec fn joined_path(base: Seq<char>, part: Seq<char>) -> Seq<char>;

/// What `Path::is_absolute` says of `path` on the platform this crate is built for.
pub uninterp spec fn absolute_path(path: Seq<char>) -> bool;

/// What `Path::file_name` gives for `path`, read back as text.
pub uninterp spec fn final_component(path: Seq<char>) -> Option<Seq<char>>;

/// What `Path::parent` gives for `path`, read back as text.
pub uninterp spec fn parent_path(path: Seq<char>) -> Option<Seq<char>>;

/// What `Path::starts_with` says of `path` and `base` (a comparison of whole
/// components).
pub uninterp spec fn path_has_prefix(path: Seq<char>, base: Seq<char>) -> bool;

/// `Path::join`: `part` adjoined to `base`. Verus believes only that the result
/// is `joined_path` of the two arguments; the layout of that text is left to std.
#[verifier::external_body]
pub(crate) fn path_join(base: &str, part: &str) -> (r: String)
    ensures
        r@ == joined_path(base@, part@),
{
    std::path::Path::new(base).join(part).to_string_lossy().into_owned()
}

/// `Path::is_absolute` on `path`. Believed: the result is `absolute_path(path)`.
#[verifier::external_body]
pub(crate) fn path_is_absolute(path: &str) -> (r: bool)
    ensures
        r == absolute_path(path@),
{
    std::path::Path::new(path).is_absolute()
}

/// `Path::file_name` on `path`, read back as text. Believed: the result is
/// `final_component(path)`.
#[verifier::external_body]
pub(crate) fn path_file_name(path: &str) -> (r: Option<String>)
    ensures
        r is Some <==> final_component(path@) is Some,
        r matches Some(n) ==> final_component(path@) == Some(n@),
{
    std::path::Path::new(path).file_name().map(|name| name.to_string_lossy().into_owned())
}

/// `Path::parent` on `path`, read back as text. Believed: the result is
/// `parent_path(path)`.
#[verifier::external_body]
pub(crate) fn path_parent(path: &str) -> (r: Option<String>)
    ensures
        r is Some <==> parent_path(path@) is Some,
        r matches Some(p) ==> parent_path(path@) == Some(p@),
{
    std::path::Path::new(path).parent().map(|parent| parent.to_string_lossy().into_owned())
}

/// `Path::starts_with`. Believed: the result is `path_has_prefix(path, base)`.
#[verifier::external_body]
pub(crate) fn path_starts_with(path: &str, base: &str) -> (r: bool)
    ensures
        r == path_has_prefix(path@, base@),
{
    std::path::Path::new(path).starts_with(base)
}

/// The environment variables the application consults, each as it was read
/// (`None` when unset or not valid Unicode).
pub struct EnvVars {
    pub user_profile: Option<String>,
    pub home: Option<String>,
    pub local_app_data: Option<String>,
    pub xdg_data_home: Option<String>,
    pub program_files: Option<String>,
    pub program_files_x86: Option<String>,
    pub toolchain_dir: Option<String>,
}

/// The user's home directory: `USERPROFILE`, else `HOME`, else `.`.
pub open spec fn home_dir_spec(env: EnvVars) -> Seq<char> {
    match env.user_profile {
        Some(p) => p@,
        None => match env.home {
            Some(h) => h@,
            None => "."@,
        },
    }
}

/// The user's home directory: `USERPROFILE`, else `HOME`, else `.`.
pub fn home_dir(env: &EnvVars) -> (r: String)
    ensures
        r@ == home_dir_spec(*env),
{
    match &env.user_profile {
        Some(p) => p.clone(),
        None => match &env.home {
            Some(h) => h.clone(),
            None => String::from_str("."),
        },
    }
}

/// The message given when no output directory is named.
pub open spec fn missing_output_dir_message() -> Seq<char> {
    "An output directory is required"@
}

/// The output directory a request names: its trimmed text, taken as it is when
/// absolute and under `home` otherwise; an error when it is blank.
pub open spec fn output_dir_spec(raw: Seq<char>, home: Seq<char>) -> Result<Seq<char>, Seq<char>> {
    let t = trim(raw);
    if t.len() == 0 {
        Err(missing_output_dir_message())
    } else if absolute_path(t) {
        Ok(t)
    } else {
        Ok(joined_path(home, t))
    }
}

/// Resolves the output directory of a request against the home directory.
pub fn normalize_output_dir(raw_path: &str, home: &str) -> (r: Result<String, String>)
    ensures
        output_dir_spec(raw_path@, home@) is Ok <==> r is Ok,
        r matches Ok(p) ==> output_dir_spec(raw_path@, home@) == Ok::<Seq<char>, Seq<char>>(p@),
        r matches Err(e) ==> output_dir_spec(raw_path@, home@) == Err::<Seq<char>, Seq<char>>(e@),
{
    let cs = chars_of(raw_path);
    let t = trim_chars(&cs);
    if t.len() == 0 {
        return Err(String::from_str("An output directory is required"));
    }
    let trimmed = string_of(&t);
    if path_is_absolute(trimmed.as_str()) {
        Ok(trimmed)
    } else {
        Ok(path_join(home, trimmed.as_str()))
    }
}


/// Whether a file name names the ffmpeg executable, ignoring ASCII case.
pub open spec fn is_ffmpeg_name(name: Seq<char>) -> bool {
    same_ignoring_ascii_case(name, "ffmpeg.exe"@) || same_ignoring_ascii_case(name, "ffmpeg"@)
}

/// What yt-dlp is told ffmpeg's location is: the directory holding the ffmpeg
/// executable when `path` names it, and `path` itself otherwise.
pub open spec fn ffmpeg_location_spec(path: Seq<char>) -> Seq<char> {
    match final_component(path) {
        Some(name) => if is_ffmpeg_name(name) {
            match parent_path(path) {
                Some(p) => p,
                None => path,
            }
        } else {
            path
        },
        None => path,
    }
}

/// The value of `--ffmpeg-location` for a resolved ffmpeg executable path.
pub fn ffmpeg_location(path: &str) -> (r: String)
    ensures
        r@ == ffmpeg_location_spec(path@),
{
    match path_file_name(path) {
        Some(name) => {
            let n = chars_of(name.as_str());
            let exe = chars_of("ffmpeg.exe");
            let bare = chars_of("ffmpeg");
            if eq_ignore_ascii_case_chars(&n, &exe) || eq_ignore_ascii_case_chars(&n, &bare) {
                match path_parent(path) {
                    Some(p) => p,
                    None => String::from_str(path),
                }
            } else {
                String::from_str(path)
            }
        },
        None => String::from_str(path),
    }
}

} // verus!
