//! The external tools (yt-dlp, ffmpeg, Deno): their status and how they are installed.
use vstd::prelude::*;
use crate::args::concat_lit;
use crate::output::{first_version_line, version_line_spec};
use crate::text::{ascii_lower, ascii_lower_chars, chars_eq_str, chars_of, string_of, trim, trim_chars};

verus! {

/// What is known of one tool.
pub struct ToolStatus {
    pub name: String,
    pub installed: bool,
    pub managed: bool,
    pub path: Option<String>,
    pub version: Option<String>,
    pub error: Option<String>,
}

/// The state of all tools and the directories the application uses.
pub struct SystemStatus {
    pub yt_dlp: ToolStatus,
    pub ffmpeg: ToolStatus,
    pub deno: ToolStatus,
    pub default_output_dir: String,
    pub tools_dir: String,
}

/// A request to install one tool, or all of them.
pub struct InstallToolRequest {
    pub tool: String,
    pub channel: Option<String>,
}

/// One installation to perform.
pub enum ToolInstall {
    YtDlp { channel: String },
    Ffmpeg,
    Deno,
}

/// The status of a tool that was found at `path`; its version is the first line
/// of what `--version` printed, when it could be run.
pub fn inspect_found(name: &str, path: String, managed: bool, version_output: Option<&[u8]>) -> (r:
    ToolStatus)
    ensures
        r.name@ == name@,
        r.installed,
        r.managed == managed,
        r.path == Some(path),
        r.error is None,
        version_output is None ==> r.version is None,
        version_output matches Some(out) ==> (match r.version {
            Some(v) => version_line_spec(out@) == Some(v@),
            None => version_line_spec(out@) is None,
        }),
{
    let version = match version_output {
        Some(out) => first_version_line(out),
        None => None,
    };
    ToolStatus {
        name: String::from_str(name),
        installed: true,
        managed,
        path: Some(path),
        version,
        error: None,
    }
}

/// The status of a tool that was not found.
pub fn inspect_missing(name: &str, error: String) -> (r: ToolStatus)
    ensures
        r.name@ == name@,
        !r.installed,
        !r.managed,
        r.path is None,
        r.version is None,
        r.error == Some(error),
{
    ToolStatus {
        name: String::from_str(name),
        installed: false,
        managed: false,
        path: None,
        version: None,
        error: Some(error),
    }
}

/// The whole status, failing when the tools directory could not be determined.
pub fn system_status(
    yt_dlp: ToolStatus,
    ffmpeg: ToolStatus,
    deno: ToolStatus,
    default_output_dir: String,
    tools_dir: Result<String, String>,
) -> (r: Result<SystemStatus, String>)
    ensures
        match tools_dir {
            Ok(dir) => r matches Ok(s) && s.yt_dlp == yt_dlp && s.ffmpeg == ffmpeg && s.deno == deno
                && s.default_output_dir == default_output_dir && s.tools_dir == dir,
            Err(e) => r == Err::<SystemStatus, String>(e),
        },
{
    match tools_dir {
        Ok(dir) => Ok(SystemStatus { yt_dlp, ffmpeg, deno, default_output_dir, tools_dir: dir }),
        Err(e) => Err(e),
    }
}

/// The channel a request names for yt-dlp: its own, or `stable`.
pub open spec fn requested_channel(request: InstallToolRequest) -> Seq<char> {
    match request.channel {
        Some(c) => c@,
        None => "stable"@,
    }
}

/// The step's installation kind, with the yt-dlp channel as text.
pub open spec fn step_view(step: ToolInstall) -> (int, Seq<char>) {
    match step {
        ToolInstall::YtDlp { channel } => (0, channel@),
        ToolInstall::Ffmpeg => (1, Seq::empty()),
        ToolInstall::Deno => (2, Seq::empty()),
    }
}

/// The installations a request asks for, as kinds and channels.
pub open spec fn install_plan_spec(tool: Seq<char>, channel: Seq<char>) -> Result<
    Seq<(int, Seq<char>)>,
    Seq<char>,
> {
    if tool == "yt-dlp"@ {
        Ok(seq![(0, channel)])
    } else if tool == "ffmpeg"@ {
        Ok(seq![(1, Seq::empty())])
    } else if tool == "deno"@ {
        Ok(seq![(2, Seq::empty())])
    } else if tool == "all"@ {
        Ok(seq![(0, channel), (1, Seq::empty()), (2, Seq::empty())])
    } else {
        Err("Unsupported tool: "@ + tool)
    }
}

fn yt_dlp_step(request: &InstallToolRequest) -> (r: ToolInstall)
    ensures
        step_view(r) == (0int, requested_channel(*request)),
{
    let channel = match &request.channel {
        Some(c) => c.clone(),
        None => String::from_str("stable"),
    };
    ToolInstall::YtDlp { channel }
}

/// The installations an install request asks for, in order.
pub fn install_steps(request: &InstallToolRequest) -> (r: Result<Vec<ToolInstall>, String>)
    ensures
        r is Ok <==> install_plan_spec(request.tool@, requested_channel(*request)) is Ok,
        r matches Ok(steps) ==> install_plan_spec(request.tool@, requested_channel(*request))
            == Ok::<Seq<(int, Seq<char>)>, Seq<char>>(
            steps@.map_values(|s: ToolInstall| step_view(s)),
        ),
        r matches Err(e) ==> install_plan_spec(request.tool@, requested_channel(*request))
            == Err::<Seq<(int, Seq<char>)>, Seq<char>>(e@),
{
    let tool = chars_of(request.tool.as_str());
    let mut steps: Vec<ToolInstall> = Vec::new();
    if chars_eq_str(&tool, "yt-dlp") {
        steps.push(yt_dlp_step(request));
    } else if chars_eq_str(&tool, "ffmpeg") {
        steps.push(ToolInstall::Ffmpeg);
    } else if chars_eq_str(&tool, "deno") {
        steps.push(ToolInstall::Deno);
    } else if chars_eq_str(&tool, "all") {
        steps.push(yt_dlp_step(request));
        steps.push(ToolInstall::Ffmpeg);
        steps.push(ToolInstall::Deno);
    } else {
        return Err(concat_lit("Unsupported tool: ", request.tool.as_str()));
    }
    assert(steps@.map_values(|s: ToolInstall| step_view(s)) == install_plan_spec(
        request.tool@,
        requested_channel(*request),
    )->Ok_0);
    Ok(steps)
}

/// The download address of yt-dlp for an update channel (case and surrounding
/// white space ignored), or why the channel is refused.
pub open spec fn yt_dlp_url_spec(channel: Seq<char>) -> Result<Seq<char>, Seq<char>> {
    let c = ascii_lower(trim(channel));
    if c.len() == 0 || c == "stable"@ || c == "release"@ {
        Ok("https://github.com/yt-dlp/yt-dlp/releases/latest/download/yt-dlp.exe"@)
    } else if c == "nightly"@ {
        Ok("https://github.com/yt-dlp/yt-dlp-nightly-builds/releases/latest/download/yt-dlp.exe"@)
    } else if c == "master"@ {
        Ok("https://github.com/yt-dlp/yt-dlp-master-builds/releases/latest/download/yt-dlp.exe"@)
    } else {
        Err("Unsupported yt-dlp update channel: "@ + c)
    }
}

/// The download address of yt-dlp for an update channel.
pub fn yt_dlp_download_url(channel: &str) -> (r: Result<&'static str, String>)
    ensures
        r is Ok <==> yt_dlp_url_spec(channel@) is Ok,
        r matches Ok(u) ==> yt_dlp_url_spec(channel@) == Ok::<Seq<char>, Seq<char>>(u@),
        r matches Err(e) ==> yt_dlp_url_spec(channel@) == Err::<Seq<char>, Seq<char>>(e@),
{
    let cs = chars_of(channel);
    let t = trim_chars(&cs);
    let c = ascii_lower_chars(&t);
    if c.len() == 0 || chars_eq_str(&c, "stable") || chars_eq_str(&c, "release") {
        Ok("https://github.com/yt-dlp/yt-dlp/releases/latest/download/yt-dlp.exe")
    } else if chars_eq_str(&c, "nightly") {
        Ok("https://github.com/yt-dlp/yt-dlp-nightly-builds/releases/latest/download/yt-dlp.exe")
    } else if chars_eq_str(&c, "master") {
        Ok("https://github.com/yt-dlp/yt-dlp-master-builds/releases/latest/download/yt-dlp.exe")
    } else {
        let name = string_of(&c);
        Err(concat_lit("Unsupported yt-dlp update channel: ", name.as_str()))
    }
}

/// The download address of the ffmpeg archive.
pub fn ffmpeg_url() -> (r: &'static str)
    ensures
        r@ == "https://www.gyan.dev/ffmpeg/builds/ffmpeg-release-essentials.zip"@,
{
    "https://www.gyan.dev/ffmpeg/builds/ffmpeg-release-essentials.zip"
}

/// The download address of the Deno archive.
pub fn deno_url() -> (r: &'static str)
    ensures
        r@ == "https://github.com/denoland/deno/releases/latest/download/deno-x86_64-pc-windows-msvc.zip"@,
{
    "https://github.com/denoland/deno/releases/latest/download/deno-x86_64-pc-windows-msvc.zip"
}

/// Managed installation is offered on Windows only.
pub fn ensure_windows_install_supported(windows: bool) -> (r: Result<(), String>)
    ensures
        r is Ok <==> windows,
        r matches Err(e) ==> e@ == "Managed tool installation is currently available on Windows only."@,
{
    if windows {
        Ok(())
    } else {
        Err(String::from_str("Managed tool installation is currently available on Windows only."))
    }
}

/// The file name of a tool's executable: with `.exe` on Windows.
pub open spec fn executable_name_spec(name: Seq<char>, windows: bool) -> Seq<char> {
    if windows {
        name + ".exe"@
    } else {
        name
    }
}

/// The file name of a tool's executable.
pub fn executable_name(name: &str, windows: bool) -> (r: String)
    ensures
        r@ == executable_name_spec(name@, windows),
{
    if windows {
        let mut s = String::from_str(name);
        s.append(".exe");
        s
    } else {
        String::from_str(name)
    }
}

/// The message for a download that cannot start because ffmpeg is missing.
pub fn ffmpeg_missing_message(error: &str) -> (r: String)
    ensures
        r@ == error@ + ". Install ffmpeg from Settings."@,
{
    let mut s = String::from_str(error);
    s.append(". Install ffmpeg from Settings.");
    s
}


/// Every yt-dlp installation a request plans uses the channel the request
/// names, or `stable` when it names none; a request for `yt-dlp` or for `all`
/// does plan one, and `all` installs yt-dlp, then ffmpeg, then Deno.
pub proof fn law_install_channel(request: InstallToolRequest)
    ensures
        install_plan_spec(request.tool@, requested_channel(request)) matches Ok(plan) ==> forall|i: int|
            0 <= i < plan.len() && (#[trigger] plan[i]).0 == 0 ==> plan[i].1 == match request.channel {
                Some(c) => c@,
                None => "stable"@,
            },
        request.tool@ == "yt-dlp"@ || request.tool@ == "all"@ ==> (install_plan_spec(
            request.tool@,
            requested_channel(request),
        ) matches Ok(plan) && exists|i: int| 0 <= i < plan.len() && (#[trigger] plan[i]).0 == 0),
        request.tool@ == "all"@ ==> (install_plan_spec(request.tool@, requested_channel(request))
            matches Ok(plan) && plan.len() == 3 && plan[0].0 == 0 && plan[1].0 == 1 && plan[2].0
            == 2),
{
    reveal_strlit("yt-dlp");
    reveal_strlit("ffmpeg");
    reveal_strlit("deno");
    reveal_strlit("all");
    assert("all"@.len() == 3 && "ffmpeg"@.len() == 6 && "deno"@.len() == 4 && "yt-dlp"@.len() == 6);
    if request.tool@ == "all"@ {
        assert(request.tool@ != "yt-dlp"@ && request.tool@ != "ffmpeg"@ && request.tool@ != "deno"@);
    }
    if let Ok(plan) = install_plan_spec(request.tool@, requested_channel(request)) {
        let c = requested_channel(request);
        if request.tool@ == "yt-dlp"@ {
            assert(plan == seq![(0int, c)]);
            assert(plan[0].0 == 0);
        } else if request.tool@ == "all"@ {
            assert(request.tool@ != "ffmpeg"@);
            assert(request.tool@ != "deno"@);
            assert(plan == seq![(0int, c), (1int, Seq::<char>::empty()), (2int, Seq::<char>::empty())]);
            assert(plan[0].0 == 0);
            assert(plan[1].0 == 1);
            assert(plan[2].0 == 2);
        }
    }
}

} // verus!
