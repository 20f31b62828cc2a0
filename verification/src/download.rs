//! A download request and the full yt-dlp command line it becomes.
use vstd::prelude::*;
use crate::args::{
    append_cookie_args, append_js_runtime_args, append_network_args, append_rate_limit_args,
    concat_lit, cookie_args, format_selector, format_selector_spec, js_runtime_args,
    network_args, output_template, output_template_spec, path_arg_spec, push_arg, push_lit,
    rate_limit_args, strings_view, yt_dlp_path_arg,
};
use crate::paths::{ffmpeg_location, ffmpeg_location_spec, normalize_output_dir, output_dir_spec};
use crate::split::{extra_args_spec, parse_extra_args};
use crate::text::{chars_eq_str, chars_of, decimal, decimal_chars, string_of, trim, trim_str};

verus! {

/// What the user asked to download, and how.
pub struct DownloadRequest {
    pub url: String,
    pub output_dir: String,
    pub mode: String,
    pub quality: String,
    pub video_format: String,
    pub audio_format: String,
    pub include_playlist: bool,
    pub embed_metadata: bool,
    pub embed_thumbnail: bool,
    pub write_subtitles: bool,
    pub write_auto_subtitles: bool,
    pub embed_chapters: bool,
    pub avoid_redownload: bool,
    pub concurrent_fragments: u8,
    pub skip_unavailable: bool,
    pub ignore_errors: bool,
    pub restrict_filenames: bool,
    pub prefer_free_formats: bool,
    pub no_check_certificate: bool,
    pub write_info_json: bool,
    pub keep_intermediate: bool,
    pub filename_template: String,
    pub extra_args: String,
    pub write_description: bool,
    pub write_thumbnail: bool,
    pub write_comments: bool,
    pub write_playlist_metadata: bool,
    pub mark_watched: bool,
    pub remove_sponsor_segments: bool,
    pub live_from_start: bool,
    pub verbose_logs: bool,
    pub cookie_browser: String,
    pub network_stack: String,
    pub rate_limit: String,
    pub retry_count: u8,
    pub fragment_retry_count: u8,
    pub sleep_requests: u8,
}

/// What the surroundings supply to the argument builder: the home directory,
/// the temporary download directory (or why it could not be prepared), the
/// resolved ffmpeg executable (or why it was not found), the Deno executable if
/// one was found, and the download-archive file (consulted only when the
/// request avoids re-downloads).
pub struct ArgsContext {
    pub home_dir: String,
    pub temp_dir: Result<String, String>,
    pub ffmpeg_path: Result<String, String>,
    pub deno_path: Option<String>,
    pub archive_file: Result<String, String>,
}

/// `x` clamped into `lo..=hi`.
pub open spec fn clamp_spec(x: u8, lo: u8, hi: u8) -> u8 {
    if x < lo {
        lo
    } else if x > hi {
        hi
    } else {
        x
    }
}

/// `[a]` when `b` holds, else nothing.
#[verifier::opaque]
pub open spec fn opt_arg(b: bool, a: Seq<char>) -> Seq<Seq<char>> {
    if b {
        seq![a]
    } else {
        seq![]
    }
}

/// The arguments every download starts with.
pub open spec fn base_args(req: DownloadRequest, out: Seq<char>, temp: Seq<char>) -> Seq<Seq<char>> {
    seq![
        "--newline"@,
        "--no-color"@,
        "--encoding"@,
        "utf-8"@,
        "--windows-filenames"@,
        "--no-part"@,
        "--no-mtime"@,
        "--trim-filenames"@,
        "155"@,
        "--concurrent-fragments"@,
        decimal(clamp_spec(req.concurrent_fragments, 1, 16) as nat),
        "--retries"@,
        decimal(clamp_spec(req.retry_count, 0, 100) as nat),
        "--fragment-retries"@,
        decimal(clamp_spec(req.fragment_retry_count, 0, 100) as nat),
        "--paths"@,
        "home:"@ + path_arg_spec(out),
        "--paths"@,
        "temp:"@ + path_arg_spec(temp),
        "-o"@,
        output_template_spec(req.filename_template@, req.include_playlist),
    ]
}

/// Playlist handling, error policy and the plain file-name and format switches.
pub open spec fn policy_args(req: DownloadRequest) -> Seq<Seq<char>> {
    seq![if req.include_playlist { "--yes-playlist"@ } else { "--no-playlist"@ }] + seq![
        if req.ignore_errors {
            "--ignore-errors"@
        } else if req.skip_unavailable {
            "--no-abort-on-error"@
        } else {
            "--abort-on-error"@
        },
    ] + opt_arg(req.restrict_filenames, "--restrict-filenames"@) + opt_arg(
        req.prefer_free_formats,
        "--prefer-free-formats"@,
    ) + opt_arg(req.no_check_certificate, "--no-check-certificates"@)
}

/// The pause between requests, when one is asked for (at most 60 seconds).
pub open spec fn sleep_args(req: DownloadRequest) -> Seq<Seq<char>> {
    if req.sleep_requests > 0 {
        seq!["--sleep-requests"@, decimal(clamp_spec(req.sleep_requests, 0, 60) as nat)]
    } else {
        seq![]
    }
}

/// The download archive, when the request avoids re-downloads.
pub open spec fn archive_args(req: DownloadRequest, archive: Seq<char>) -> Seq<Seq<char>> {
    if req.avoid_redownload {
        seq!["--download-archive"@, archive]
    } else {
        seq![]
    }
}

/// The subtitle switches.
#[verifier::opaque]
pub open spec fn subtitle_args(req: DownloadRequest) -> Seq<Seq<char>> {
    (if req.write_subtitles {
        seq!["--write-subs"@, "--sub-langs"@, "all,-live_chat"@]
    } else {
        seq![]
    }) + (if req.write_auto_subtitles {
        if req.write_subtitles {
            seq!["--write-auto-subs"@]
        } else {
            seq!["--write-auto-subs"@, "--sub-langs"@, "all,-live_chat"@]
        }
    } else {
        seq![]
    })
}

/// The comments, with the info JSON they are written into unless it is already asked for.
#[verifier::opaque]
pub open spec fn comment_args(req: DownloadRequest) -> Seq<Seq<char>> {
    if req.write_comments {
        seq!["--write-comments"@] + opt_arg(!req.write_info_json, "--write-info-json"@)
    } else {
        seq![]
    }
}

/// The switches for side files written next to the download.
#[verifier::opaque]
pub open spec fn side_file_args(req: DownloadRequest) -> Seq<Seq<char>> {
    opt_arg(req.write_info_json, "--write-info-json"@) + opt_arg(
        req.write_description,
        "--write-description"@,
    ) + opt_arg(req.write_thumbnail, "--write-thumbnail"@) + comment_args(req) + opt_arg(
        req.write_playlist_metadata, "--write-playlist-metafiles"@) + opt_arg(
        req.keep_intermediate,
        "--keep-video"@,
    )
}

/// The removal of sponsored segments, when asked for.
#[verifier::opaque]
pub open spec fn sponsor_args(req: DownloadRequest) -> Seq<Seq<char>> {
    if req.remove_sponsor_segments {
        seq!["--sponsorblock-remove"@, "all"@]
    } else {
        seq![]
    }
}

/// The switches for embedding, post-processing and logging.
#[verifier::opaque]
pub open spec fn embed_args(req: DownloadRequest) -> Seq<Seq<char>> {
    opt_arg(req.embed_metadata, "--embed-metadata"@) + opt_arg(
        req.embed_thumbnail,
        "--embed-thumbnail"@,
    ) + subtitle_args(req) + opt_arg(req.embed_chapters, "--embed-chapters"@) + opt_arg(
        req.mark_watched,
        "--mark-watched"@,
    ) + sponsor_args(req) + opt_arg(req.live_from_start, "--live-from-start"@) + opt_arg(
        req.verbose_logs,
        "--verbose"@,
    )
}

/// The switches for side files, embedding and logging.
pub open spec fn output_option_args(req: DownloadRequest) -> Seq<Seq<char>> {
    side_file_args(req) + embed_args(req)
}

/// The format arguments for the download mode, or why the mode is refused.
pub open spec fn mode_args(req: DownloadRequest) -> Result<Seq<Seq<char>>, Seq<char>> {
    if req.mode@ == "audio"@ {
        Ok(
            seq![
                "-f"@,
                "ba/bestaudio"@,
                "--extract-audio"@,
                "--audio-format"@,
                req.audio_format@,
                "--audio-quality"@,
                "0"@,
            ],
        )
    } else if req.mode@ == "video"@ {
        Ok(
            seq!["-f"@, format_selector_spec(req.quality@, req.video_format@)] + (if req.video_format@
                != "source"@ {
                seq![
                    "--merge-output-format"@,
                    req.video_format@,
                    "--remux-video"@,
                    req.video_format@,
                ]
            } else {
                seq![]
            }),
        )
    } else {
        Err("Unsupported download mode: "@ + req.mode@)
    }
}

/// The Deno path as text, if one was found.
pub open spec fn deno_view(ctx: ArgsContext) -> Option<Seq<char>> {
    match ctx.deno_path {
        Some(p) => Some(p@),
        None => None,
    }
}

/// The full yt-dlp command line for a request, or the first reason, in the order
/// the checks are made, why it cannot be built.
pub open spec fn download_args_spec(req: DownloadRequest, ctx: ArgsContext) -> Result<
    Seq<Seq<char>>,
    Seq<char>,
> {
    match output_dir_spec(req.output_dir@, ctx.home_dir@) {
        Err(e) => Err(e),
        Ok(out) => match ctx.temp_dir {
            Err(e) => Err(e@),
            Ok(temp) => match rate_limit_args(req.rate_limit@) {
                Err(e) => Err(e),
                Ok(rate) => match cookie_args(req.cookie_browser@) {
                    Err(e) => Err(e),
                    Ok(cookie) => match network_args(req.network_stack@) {
                        Err(e) => Err(e),
                        Ok(net) => match ctx.ffmpeg_path {
                            Err(e) => Err(e@),
                            Ok(ffmpeg) => if req.avoid_redownload && ctx.archive_file is Err {
                                Err(ctx.archive_file->Err_0@)
                            } else {
                                match mode_args(req) {
                                    Err(e) => Err(e),
                                    Ok(mode) => match extra_args_spec(req.extra_args@) {
                                        Err(e) => Err(e),
                                        Ok(extra) => Ok(
                                            base_args(req, out, temp@) + policy_args(req) + rate
                                                + cookie + net + sleep_args(req) + seq![
                                                "--ffmpeg-location"@,
                                                ffmpeg_location_spec(ffmpeg@),
                                            ] + js_runtime_args(deno_view(ctx)) + archive_args(
                                                req,
                                                match ctx.archive_file {
                                                    Ok(a) => a@,
                                                    Err(_) => Seq::empty(),
                                                },
                                            ) + output_option_args(req) + mode + extra + seq![
                                                trim(req.url@),
                                            ],
                                        ),
                                    },
                                }
                            },
                        },
                    },
                },
            },
        },
    }
}

fn clamp_u8(x: u8, lo: u8, hi: u8) -> (r: u8)
    ensures
        r == clamp_spec(x, lo, hi),
{
    if x < lo {
        lo
    } else if x > hi {
        hi
    } else {
        x
    }
}

fn decimal_string(n: u8) -> (r: String)
    ensures
        r@ == decimal(n as nat),
{
    let d = decimal_chars(n as u64);
    string_of(&d)
}

fn push_opt(args: &mut Vec<String>, b: bool, lit: &str)
    ensures
        strings_view(final(args)@) == strings_view(old(args)@) + opt_arg(b, lit@),
{
    reveal(opt_arg);
    let ghost before = strings_view(args@);
    if b {
        push_lit(args, lit);
    } else {
        assert(before + seq![] == before);
    }
}

#[verifier::rlimit(40)]
fn base_args_exec(req: &DownloadRequest, out: &str, temp: &str) -> (r: Vec<String>)
    ensures
        strings_view(r@) == base_args(*req, out@, temp@),
{
    let mut args: Vec<String> = Vec::new();
    push_lit(&mut args, "--newline");
    push_lit(&mut args, "--no-color");
    push_lit(&mut args, "--encoding");
    push_lit(&mut args, "utf-8");
    push_lit(&mut args, "--windows-filenames");
    push_lit(&mut args, "--no-part");
    push_lit(&mut args, "--no-mtime");
    push_lit(&mut args, "--trim-filenames");
    push_lit(&mut args, "155");
    push_lit(&mut args, "--concurrent-fragments");
    push_arg(&mut args, decimal_string(clamp_u8(req.concurrent_fragments, 1, 16)));
    push_lit(&mut args, "--retries");
    push_arg(&mut args, decimal_string(clamp_u8(req.retry_count, 0, 100)));
    push_lit(&mut args, "--fragment-retries");
    push_arg(&mut args, decimal_string(clamp_u8(req.fragment_retry_count, 0, 100)));
    push_lit(&mut args, "--paths");
    let home = yt_dlp_path_arg(out);
    push_arg(&mut args, concat_lit("home:", home.as_str()));
    push_lit(&mut args, "--paths");
    let tmp = yt_dlp_path_arg(temp);
    push_arg(&mut args, concat_lit("temp:", tmp.as_str()));
    push_lit(&mut args, "-o");
    push_arg(&mut args, output_template(req.filename_template.as_str(), req.include_playlist));
    assert(strings_view(args@) == base_args(*req, out@, temp@));
    args
}

fn push_policy_args(args: &mut Vec<String>, req: &DownloadRequest)
    ensures
        strings_view(final(args)@) == strings_view(old(args)@) + policy_args(*req),
{
    let ghost before = strings_view(args@);
    if req.include_playlist {
        push_lit(args, "--yes-playlist");
    } else {
        push_lit(args, "--no-playlist");
    }
    if req.ignore_errors {
        push_lit(args, "--ignore-errors");
    } else if req.skip_unavailable {
        push_lit(args, "--no-abort-on-error");
    } else {
        push_lit(args, "--abort-on-error");
    }
    push_opt(args, req.restrict_filenames, "--restrict-filenames");
    push_opt(args, req.prefer_free_formats, "--prefer-free-formats");
    push_opt(args, req.no_check_certificate, "--no-check-certificates");
    assert(strings_view(args@) == before + policy_args(*req));
}

fn push_sleep_args(args: &mut Vec<String>, req: &DownloadRequest)
    ensures
        strings_view(final(args)@) == strings_view(old(args)@) + sleep_args(*req),
{
    let ghost before = strings_view(args@);
    if req.sleep_requests > 0 {
        push_lit(args, "--sleep-requests");
        push_arg(args, decimal_string(clamp_u8(req.sleep_requests, 0, 60)));
        assert(strings_view(args@) == before + sleep_args(*req));
    } else {
        assert(before + seq![] == before);
    }
}

fn push_subtitle_args(args: &mut Vec<String>, req: &DownloadRequest)
    ensures
        strings_view(final(args)@) == strings_view(old(args)@) + subtitle_args(*req),
{
    reveal(subtitle_args);
    let ghost before = strings_view(args@);
    if req.write_subtitles {
        push_lit(args, "--write-subs");
        push_lit(args, "--sub-langs");
        push_lit(args, "all,-live_chat");
    }
    if req.write_auto_subtitles {
        push_lit(args, "--write-auto-subs");
        if !req.write_subtitles {
            push_lit(args, "--sub-langs");
            push_lit(args, "all,-live_chat");
        }
    }
    assert(strings_view(args@) == before + subtitle_args(*req));
}

fn push_comment_args(args: &mut Vec<String>, req: &DownloadRequest)
    ensures
        strings_view(final(args)@) == strings_view(old(args)@) + comment_args(*req),
{
    reveal(comment_args);
    let ghost before = strings_view(args@);
    if req.write_comments {
        push_lit(args, "--write-comments");
        push_opt(args, !req.write_info_json, "--write-info-json");
    } else {
        assert(before + seq![] == before);
    }
}

#[verifier::rlimit(40)]
fn push_side_file_args(args: &mut Vec<String>, req: &DownloadRequest)
    ensures
        strings_view(final(args)@) == strings_view(old(args)@) + side_file_args(*req),
{
    reveal(side_file_args);
    let ghost s0 = strings_view(args@);
    push_opt(args, req.write_info_json, "--write-info-json");
    push_opt(args, req.write_description, "--write-description");
    push_opt(args, req.write_thumbnail, "--write-thumbnail");
    push_comment_args(args, req);
    push_opt(args, req.write_playlist_metadata, "--write-playlist-metafiles");
    push_opt(args, req.keep_intermediate, "--keep-video");
    assert(strings_view(args@) == s0 + side_file_args(*req));
}

fn push_sponsor_args(args: &mut Vec<String>, req: &DownloadRequest)
    ensures
        strings_view(final(args)@) == strings_view(old(args)@) + sponsor_args(*req),
{
    reveal(sponsor_args);
    let ghost before = strings_view(args@);
    if req.remove_sponsor_segments {
        push_lit(args, "--sponsorblock-remove");
        push_lit(args, "all");
    }
    assert(strings_view(args@) == before + sponsor_args(*req));
}

#[verifier::rlimit(40)]
fn push_embed_args(args: &mut Vec<String>, req: &DownloadRequest)
    ensures
        strings_view(final(args)@) == strings_view(old(args)@) + embed_args(*req),
{
    reveal(embed_args);
    let ghost s0 = strings_view(args@);
    push_opt(args, req.embed_metadata, "--embed-metadata");
    push_opt(args, req.embed_thumbnail, "--embed-thumbnail");
    push_subtitle_args(args, req);
    push_opt(args, req.embed_chapters, "--embed-chapters");
    push_opt(args, req.mark_watched, "--mark-watched");
    push_sponsor_args(args, req);
    push_opt(args, req.live_from_start, "--live-from-start");
    push_opt(args, req.verbose_logs, "--verbose");
    assert(strings_view(args@) == s0 + embed_args(*req));
}

#[verifier::rlimit(40)]
fn push_output_option_args(args: &mut Vec<String>, req: &DownloadRequest)
    ensures
        strings_view(final(args)@) == strings_view(old(args)@) + output_option_args(*req),
{
    let ghost s0 = strings_view(args@);
    push_side_file_args(args, req);
    push_embed_args(args, req);
    assert(strings_view(args@) == s0 + output_option_args(*req));
}

fn push_mode_args(args: &mut Vec<String>, req: &DownloadRequest) -> (r: Result<(), String>)
    ensures
        r is Ok <==> mode_args(*req) is Ok,
        r matches Err(e) ==> mode_args(*req) == Err::<Seq<Seq<char>>, Seq<char>>(e@),
        r is Ok ==> strings_view(final(args)@) == strings_view(old(args)@) + mode_args(
            *req,
        )->Ok_0,
{
    let ghost before = strings_view(args@);
    let mode = chars_of(req.mode.as_str());
    if chars_eq_str(&mode, "audio") {
        push_lit(args, "-f");
        push_lit(args, "ba/bestaudio");
        push_lit(args, "--extract-audio");
        push_lit(args, "--audio-format");
        push_arg(args, req.audio_format.clone());
        push_lit(args, "--audio-quality");
        push_lit(args, "0");
        assert(strings_view(args@) == before + mode_args(*req)->Ok_0);
        Ok(())
    } else if chars_eq_str(&mode, "video") {
        push_lit(args, "-f");
        push_arg(args, format_selector(req.quality.as_str(), req.video_format.as_str()));
        let vf = chars_of(req.video_format.as_str());
        if !chars_eq_str(&vf, "source") {
            push_lit(args, "--merge-output-format");
            push_arg(args, req.video_format.clone());
            push_lit(args, "--remux-video");
            push_arg(args, req.video_format.clone());
        }
        assert(strings_view(args@) == before + mode_args(*req)->Ok_0);
        Ok(())
    } else {
        Err(concat_lit("Unsupported download mode: ", req.mode.as_str()))
    }
}

fn append_all(args: &mut Vec<String>, more: Vec<String>)
    ensures
        strings_view(final(args)@) == strings_view(old(args)@) + strings_view(more@),
{
    let ghost before = strings_view(args@);
    let mut more = more;
    let ghost m = strings_view(more@);
    args.append(&mut more);
    assert(strings_view(args@) == before + m);
}

/// The full yt-dlp command line for a download request.
#[verifier::rlimit(40)]
pub fn build_download_args(request: &DownloadRequest, ctx: &ArgsContext) -> (r: Result<
    Vec<String>,
    String,
>)
    ensures
        r is Ok <==> download_args_spec(*request, *ctx) is Ok,
        r matches Ok(v) ==> download_args_spec(*request, *ctx) == Ok::<
            Seq<Seq<char>>,
            Seq<char>,
        >(strings_view(v@)),
        r matches Err(e) ==> download_args_spec(*request, *ctx) == Err::<
            Seq<Seq<char>>,
            Seq<char>,
        >(e@),
{
    let output_dir = match normalize_output_dir(request.output_dir.as_str(), ctx.home_dir.as_str()) {
        Ok(d) => d,
        Err(e) => return Err(e),
    };
    let temp_dir = match &ctx.temp_dir {
        Ok(t) => t,
        Err(e) => return Err(e.clone()),
    };
    let mut args = base_args_exec(request, output_dir.as_str(), temp_dir.as_str());
    push_policy_args(&mut args, request);
    let ghost s1 = strings_view(args@);
    assert(s1 == base_args(*request, output_dir@, temp_dir@) + policy_args(*request));
    match append_rate_limit_args(&mut args, request.rate_limit.as_str()) {
        Ok(()) => {},
        Err(e) => return Err(e),
    }
    match append_cookie_args(&mut args, request.cookie_browser.as_str()) {
        Ok(()) => {},
        Err(e) => return Err(e),
    }
    match append_network_args(&mut args, request.network_stack.as_str()) {
        Ok(()) => {},
        Err(e) => return Err(e),
    }
    push_sleep_args(&mut args, request);
    let ffmpeg_path = match &ctx.ffmpeg_path {
        Ok(p) => p,
        Err(e) => return Err(e.clone()),
    };
    push_lit(&mut args, "--ffmpeg-location");
    push_arg(&mut args, ffmpeg_location(ffmpeg_path.as_str()));
    match &ctx.deno_path {
        Some(p) => append_js_runtime_args(&mut args, Some(p.as_str())),
        None => append_js_runtime_args(&mut args, None),
    }
    let ghost s2 = strings_view(args@);
    if request.avoid_redownload {
        match &ctx.archive_file {
            Ok(a) => {
                push_lit(&mut args, "--download-archive");
                push_arg(&mut args, a.clone());
            },
            Err(e) => return Err(e.clone()),
        }
    }
    let ghost s3 = strings_view(args@);
    assert(s3 == s2 + archive_args(
        *request,
        match ctx.archive_file {
            Ok(a) => a@,
            Err(_) => Seq::empty(),
        },
    ));
    push_output_option_args(&mut args, request);
    match push_mode_args(&mut args, request) {
        Ok(()) => {},
        Err(e) => return Err(e),
    }
    let extra = match parse_extra_args(request.extra_args.as_str()) {
        Ok(x) => x,
        Err(e) => return Err(e),
    };
    let ghost s4 = strings_view(args@);
    let ghost ex = strings_view(extra@);
    append_all(&mut args, extra);
    push_arg(&mut args, trim_str(request.url.as_str()));
    proof {
        let rate = rate_limit_args(request.rate_limit@)->Ok_0;
        let cookie = cookie_args(request.cookie_browser@)->Ok_0;
        let net = network_args(request.network_stack@)->Ok_0;
        assert(s2 == s1 + rate + cookie + net + sleep_args(*request) + seq![
            "--ffmpeg-location"@,
            ffmpeg_location_spec(ffmpeg_path@),
        ] + js_runtime_args(deno_view(*ctx)));
        assert(s4 == s3 + output_option_args(*request) + mode_args(*request)->Ok_0);
        assert(strings_view(args@) == s4 + ex + seq![trim(request.url@)]);
    }
    Ok(args)
}


/// A request to look at a source before downloading it.
pub struct ProbeRequest {
    pub url: String,
    pub include_playlist: bool,
}

/// The yt-dlp arguments that print a source's metadata as one JSON document.
pub open spec fn probe_args_spec(url: Seq<char>, include_playlist: bool, deno: Option<Seq<char>>) -> Seq<
    Seq<char>,
> {
    seq!["--dump-single-json"@, "--no-warnings"@, "--skip-download"@] + js_runtime_args(deno)
        + seq![if include_playlist { "--yes-playlist"@ } else { "--no-playlist"@ }] + seq![url]
}

/// The yt-dlp arguments for probing a source.
pub fn probe_args(request: &ProbeRequest, deno_path: Option<&str>) -> (r: Vec<String>)
    ensures
        strings_view(r@) == probe_args_spec(
            request.url@,
            request.include_playlist,
            match deno_path { Some(p) => Some(p@), None => None },
        ),
{
    let mut args: Vec<String> = Vec::new();
    push_lit(&mut args, "--dump-single-json");
    push_lit(&mut args, "--no-warnings");
    push_lit(&mut args, "--skip-download");
    append_js_runtime_args(&mut args, deno_path);
    if request.include_playlist {
        push_lit(&mut args, "--yes-playlist");
    } else {
        push_lit(&mut args, "--no-playlist");
    }
    push_arg(&mut args, request.url.clone());
    args
}

// ---------------------------------------------------------------------------
// Laws
// ---------------------------------------------------------------------------

/// A built command line always ends with the request's trimmed URL.
pub proof fn law_download_args_end_with_url(req: DownloadRequest, ctx: ArgsContext)
    ensures
        download_args_spec(req, ctx) matches Ok(args) ==> args.len() > 0 && args.last() == trim(
            req.url@,
        ),
{
}

/// A refused rate limit, cookie source, network stack, download mode or extra
/// argument text refuses the whole request, with that setting's own message,
/// whenever the directories and ffmpeg were found.
pub proof fn law_download_refused_settings(req: DownloadRequest, ctx: ArgsContext)
    requires
        output_dir_spec(req.output_dir@, ctx.home_dir@) is Ok,
        ctx.temp_dir is Ok,
        ctx.ffmpeg_path is Ok,
        !req.avoid_redownload || ctx.archive_file is Ok,
    ensures
        ({
            let rate = rate_limit_args(req.rate_limit@);
            let cookie = cookie_args(req.cookie_browser@);
            let net = network_args(req.network_stack@);
            let mode = mode_args(req);
            let extra = extra_args_spec(req.extra_args@);
            let built = download_args_spec(req, ctx);
            &&& rate is Err ==> built == Err::<Seq<Seq<char>>, Seq<char>>(rate->Err_0)
            &&& rate is Ok && cookie is Err ==> built == Err::<Seq<Seq<char>>, Seq<char>>(
                cookie->Err_0,
            )
            &&& rate is Ok && cookie is Ok && net is Err ==> built == Err::<
                Seq<Seq<char>>,
                Seq<char>,
            >(net->Err_0)
            &&& rate is Ok && cookie is Ok && net is Ok && mode is Err ==> built == Err::<
                Seq<Seq<char>>,
                Seq<char>,
            >(mode->Err_0)
            &&& rate is Ok && cookie is Ok && net is Ok && mode is Ok && extra is Err ==> built
                == Err::<Seq<Seq<char>>, Seq<char>>(extra->Err_0)
            &&& rate is Ok && cookie is Ok && net is Ok && mode is Ok && extra is Ok ==> built is Ok
        }),
{
}

/// The extra arguments a user writes come, in order, right before the URL.
pub proof fn law_extra_args_before_url(req: DownloadRequest, ctx: ArgsContext)
    ensures
        download_args_spec(req, ctx) matches Ok(args) ==> ({
            let extra = extra_args_spec(req.extra_args@)->Ok_0;
            &&& extra_args_spec(req.extra_args@) is Ok
            &&& args.len() >= extra.len() + 1
            &&& args.subrange(args.len() - 1 - extra.len(), args.len() - 1) == extra
        }),
{
    if let Ok(args) = download_args_spec(req, ctx) {
        let extra = extra_args_spec(req.extra_args@)->Ok_0;
        assert(args.subrange(args.len() - 1 - extra.len(), args.len() - 1) == extra);
    }
}


/// `run` occurs, as consecutive arguments, somewhere in `args`.
pub open spec fn holds_run(args: Seq<Seq<char>>, run: Seq<Seq<char>>) -> bool {
    exists|i: int| 0 <= i && i + run.len() <= args.len() && #[trigger] args.subrange(i, i + run.len()) == run
}

proof fn lemma_run_left(a: Seq<Seq<char>>, b: Seq<Seq<char>>, run: Seq<Seq<char>>)
    requires
        holds_run(a, run),
    ensures
        holds_run(a + b, run),
{
    let i = choose|i: int| 0 <= i && i + run.len() <= a.len() && #[trigger] a.subrange(i, i + run.len()) == run;
    assert((a + b).subrange(i, i + run.len()) =~= a.subrange(i, i + run.len()));
}

proof fn lemma_run_right(a: Seq<Seq<char>>, b: Seq<Seq<char>>, run: Seq<Seq<char>>)
    requires
        holds_run(b, run),
    ensures
        holds_run(a + b, run),
{
    let i = choose|i: int| 0 <= i && i + run.len() <= b.len() && #[trigger] b.subrange(i, i + run.len()) == run;
    assert((a + b).subrange(a.len() + i, a.len() + i + run.len()) =~= b.subrange(i, i + run.len()));
}

/// A run found in the subtitle switches is found in the whole command line.
proof fn lemma_run_from_subtitles(req: DownloadRequest, ctx: ArgsContext, run: Seq<Seq<char>>)
    requires
        holds_run(subtitle_args(req), run),
    ensures
        download_args_spec(req, ctx) matches Ok(args) ==> holds_run(args, run),
{
    reveal(embed_args);
    let e1 = opt_arg(req.embed_metadata, "--embed-metadata"@) + opt_arg(
        req.embed_thumbnail,
        "--embed-thumbnail"@,
    );
    let e2 = e1 + subtitle_args(req);
    lemma_run_right(e1, subtitle_args(req), run);
    let e3 = e2 + opt_arg(req.embed_chapters, "--embed-chapters"@);
    lemma_run_left(e2, opt_arg(req.embed_chapters, "--embed-chapters"@), run);
    let e4 = e3 + opt_arg(req.mark_watched, "--mark-watched"@);
    lemma_run_left(e3, opt_arg(req.mark_watched, "--mark-watched"@), run);
    let e5 = e4 + sponsor_args(req);
    lemma_run_left(e4, sponsor_args(req), run);
    let e6 = e5 + opt_arg(req.live_from_start, "--live-from-start"@);
    lemma_run_left(e5, opt_arg(req.live_from_start, "--live-from-start"@), run);
    let e7 = e6 + opt_arg(req.verbose_logs, "--verbose"@);
    lemma_run_left(e6, opt_arg(req.verbose_logs, "--verbose"@), run);
    assert(e7 == embed_args(req));
    lemma_run_right(side_file_args(req), embed_args(req), run);
    let oo = output_option_args(req);
    if let Ok(args) = download_args_spec(req, ctx) {
        let out = output_dir_spec(req.output_dir@, ctx.home_dir@)->Ok_0;
        let temp = ctx.temp_dir->Ok_0;
        let rate = rate_limit_args(req.rate_limit@)->Ok_0;
        let cookie = cookie_args(req.cookie_browser@)->Ok_0;
        let net = network_args(req.network_stack@)->Ok_0;
        let ffmpeg = ctx.ffmpeg_path->Ok_0;
        let mode = mode_args(req)->Ok_0;
        let extra = extra_args_spec(req.extra_args@)->Ok_0;
        let archive = match ctx.archive_file {
            Ok(a) => a@,
            Err(_) => Seq::empty(),
        };
        let p = base_args(req, out, temp@) + policy_args(req) + rate + cookie + net + sleep_args(req)
            + seq!["--ffmpeg-location"@, ffmpeg_location_spec(ffmpeg@)] + js_runtime_args(
            deno_view(ctx),
        ) + archive_args(req, archive);
        lemma_run_right(p, oo, run);
        lemma_run_left(p + oo, mode, run);
        lemma_run_left(p + oo + mode, extra, run);
        lemma_run_left(p + oo + mode + extra, seq![trim(req.url@)], run);
        assert(args == p + oo + mode + extra + seq![trim(req.url@)]);
    }
}

proof fn lemma_subtitle_runs(req: DownloadRequest)
    ensures
        req.write_subtitles ==> holds_run(
            subtitle_args(req),
            seq!["--write-subs"@, "--sub-langs"@, "all,-live_chat"@],
        ),
        req.write_auto_subtitles ==> holds_run(subtitle_args(req), seq!["--write-auto-subs"@]),
        req.write_auto_subtitles && !req.write_subtitles ==> holds_run(
            subtitle_args(req),
            seq!["--write-auto-subs"@, "--sub-langs"@, "all,-live_chat"@],
        ),
{
    reveal(subtitle_args);
    let subs = seq!["--write-subs"@, "--sub-langs"@, "all,-live_chat"@];
    let auto = seq!["--write-auto-subs"@];
    let first: Seq<Seq<char>> = if req.write_subtitles { subs } else { seq![] };
    let second: Seq<Seq<char>> = if req.write_auto_subtitles {
        if req.write_subtitles { auto } else { seq!["--write-auto-subs"@, "--sub-langs"@, "all,-live_chat"@] }
    } else {
        seq![]
    };
    assert(subtitle_args(req) == first + second);
    if req.write_subtitles {
        assert(first.subrange(0, 0 + subs.len() as int) =~= subs);
        lemma_run_left(first, second, subs);
    }
    if req.write_auto_subtitles {
        assert(second.subrange(0, 0 + auto.len() as int) =~= auto);
        lemma_run_right(first, second, auto);
        if !req.write_subtitles {
            let auto_langs = seq!["--write-auto-subs"@, "--sub-langs"@, "all,-live_chat"@];
            assert(second.subrange(0, 0 + auto_langs.len() as int) =~= auto_langs);
            lemma_run_right(first, second, auto_langs);
        }
    }
}

/// Asked-for subtitles are downloaded: with `write_subtitles` the command line
/// holds `--write-subs --sub-langs all,-live_chat`, and with
/// `write_auto_subtitles` it holds `--write-auto-subs`, followed by
/// `--sub-langs all,-live_chat` when the languages were not already given.
pub proof fn law_subtitles_requested(req: DownloadRequest, ctx: ArgsContext)
    ensures
        download_args_spec(req, ctx) matches Ok(args) ==> {
            &&& req.write_subtitles ==> holds_run(
                args,
                seq!["--write-subs"@, "--sub-langs"@, "all,-live_chat"@],
            )
            &&& req.write_auto_subtitles ==> holds_run(args, seq!["--write-auto-subs"@])
            &&& req.write_auto_subtitles && !req.write_subtitles ==> holds_run(
                args,
                seq!["--write-auto-subs"@, "--sub-langs"@, "all,-live_chat"@],
            )
        },
{
    lemma_subtitle_runs(req);
    if req.write_auto_subtitles && !req.write_subtitles {
        lemma_run_from_subtitles(req, ctx, seq!["--write-auto-subs"@, "--sub-langs"@, "all,-live_chat"@]);
    }
    if req.write_subtitles {
        lemma_run_from_subtitles(req, ctx, seq!["--write-subs"@, "--sub-langs"@, "all,-live_chat"@]);
    }
    if req.write_auto_subtitles {
        lemma_run_from_subtitles(req, ctx, seq!["--write-auto-subs"@]);
    }
}

} // verus!
