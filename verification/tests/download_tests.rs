use daedalus::download::{build_download_args, probe_args, ArgsContext, DownloadRequest, ProbeRequest};

fn strings(items: &[&str]) -> Vec<String> {
    items.iter().map(|s| s.to_string()).collect()
}

fn request() -> DownloadRequest {
    DownloadRequest {
        url: "  https://example.com/v  ".to_string(),
        output_dir: " Videos ".to_string(),
        mode: "video".to_string(),
        quality: "720".to_string(),
        video_format: "mp4".to_string(),
        audio_format: "mp3".to_string(),
        include_playlist: false,
        embed_metadata: false,
        embed_thumbnail: false,
        write_subtitles: false,
        write_auto_subtitles: false,
        embed_chapters: false,
        avoid_redownload: false,
        concurrent_fragments: 0,
        skip_unavailable: false,
        ignore_errors: false,
        restrict_filenames: false,
        prefer_free_formats: false,
        no_check_certificate: false,
        write_info_json: false,
        keep_intermediate: false,
        filename_template: String::new(),
        extra_args: String::new(),
        write_description: false,
        write_thumbnail: false,
        write_comments: false,
        write_playlist_metadata: false,
        mark_watched: false,
        remove_sponsor_segments: false,
        live_from_start: false,
        verbose_logs: false,
        cookie_browser: String::new(),
        network_stack: String::new(),
        rate_limit: String::new(),
        retry_count: 10,
        fragment_retry_count: 200,
        sleep_requests: 0,
    }
}

fn context() -> ArgsContext {
    ArgsContext {
        home_dir: "/home/u".to_string(),
        temp_dir: Ok("/data/temp".to_string()),
        ffmpeg_path: Ok("/opt/ff/bin/ffmpeg".to_string()),
        deno_path: None,
        archive_file: Ok("/data/archives/downloads.txt".to_string()),
    }
}

fn base(cf: &str, retries: &str, fragment_retries: &str, template: &str) -> Vec<String> {
    strings(&[
        "--newline",
        "--no-color",
        "--encoding",
        "utf-8",
        "--windows-filenames",
        "--no-part",
        "--no-mtime",
        "--trim-filenames",
        "155",
        "--concurrent-fragments",
        cf,
        "--retries",
        retries,
        "--fragment-retries",
        fragment_retries,
        "--paths",
        "home:/home/u/Videos",
        "--paths",
        "temp:/data/temp",
        "-o",
        template,
    ])
}

#[test]
fn build_download_args_plain_video() {
    let mut expected = base("1", "10", "100", "%(title)s.%(ext)s");
    expected.extend(strings(&[
        "--no-playlist",
        "--abort-on-error",
        "--ffmpeg-location",
        "/opt/ff/bin",
        "-f",
        "bv*[height<=720][ext=mp4]+ba[ext=m4a]/b[height<=720][ext=mp4]/bv*[height<=720]+ba/b[height<=720]",
        "--merge-output-format",
        "mp4",
        "--remux-video",
        "mp4",
        "https://example.com/v",
    ]));
    assert_eq!(build_download_args(&request(), &context()), Ok(expected));
}

#[test]
fn build_download_args_everything_on() {
    let mut r = request();
    r.mode = "audio".to_string();
    r.include_playlist = true;
    r.ignore_errors = true;
    r.restrict_filenames = true;
    r.prefer_free_formats = true;
    r.no_check_certificate = true;
    r.rate_limit = "5m".to_string();
    r.cookie_browser = "Chrome".to_string();
    r.network_stack = "ipv6".to_string();
    r.sleep_requests = 90;
    r.avoid_redownload = true;
    r.write_info_json = false;
    r.write_description = true;
    r.write_thumbnail = true;
    r.write_comments = true;
    r.write_playlist_metadata = true;
    r.keep_intermediate = true;
    r.embed_metadata = true;
    r.embed_thumbnail = true;
    r.write_subtitles = false;
    r.write_auto_subtitles = true;
    r.embed_chapters = true;
    r.mark_watched = true;
    r.remove_sponsor_segments = true;
    r.live_from_start = true;
    r.verbose_logs = true;
    r.concurrent_fragments = 40;
    r.extra_args = "--foo 'b c'".to_string();
    let mut ctx = context();
    ctx.deno_path = Some("/opt/deno".to_string());
    let mut expected = base("16", "10", "100", "%(playlist_index)03d - %(title)s.%(ext)s");
    expected.extend(strings(&[
        "--yes-playlist",
        "--ignore-errors",
        "--restrict-filenames",
        "--prefer-free-formats",
        "--no-check-certificates",
        "--limit-rate",
        "5M",
        "--cookies-from-browser",
        "chrome",
        "--force-ipv6",
        "--sleep-requests",
        "60",
        "--ffmpeg-location",
        "/opt/ff/bin",
        "--js-runtimes",
        "deno:/opt/deno",
        "--download-archive",
        "/data/archives/downloads.txt",
        "--write-description",
        "--write-thumbnail",
        "--write-comments",
        "--write-info-json",
        "--write-playlist-metafiles",
        "--keep-video",
        "--embed-metadata",
        "--embed-thumbnail",
        "--write-auto-subs",
        "--sub-langs",
        "all,-live_chat",
        "--embed-chapters",
        "--mark-watched",
        "--sponsorblock-remove",
        "all",
        "--live-from-start",
        "--verbose",
        "-f",
        "ba/bestaudio",
        "--extract-audio",
        "--audio-format",
        "mp3",
        "--audio-quality",
        "0",
        "--foo",
        "b c",
        "https://example.com/v",
    ]));
    assert_eq!(build_download_args(&r, &ctx), Ok(expected));
}

#[test]
fn build_download_args_skip_unavailable_and_subtitles() {
    let mut r = request();
    r.skip_unavailable = true;
    r.write_subtitles = true;
    r.write_auto_subtitles = true;
    r.write_info_json = true;
    r.write_comments = true;
    r.video_format = "source".to_string();
    r.quality = "best".to_string();
    let mut expected = base("1", "10", "100", "%(title)s.%(ext)s");
    expected.extend(strings(&[
        "--no-playlist",
        "--no-abort-on-error",
        "--ffmpeg-location",
        "/opt/ff/bin",
        "--write-info-json",
        "--write-comments",
        "--write-subs",
        "--sub-langs",
        "all,-live_chat",
        "--write-auto-subs",
        "-f",
        "bv*+ba/b",
        "https://example.com/v",
    ]));
    assert_eq!(build_download_args(&r, &context()), Ok(expected));
}

#[test]
fn build_download_args_keeps_other_ffmpeg_paths() {
    let mut ctx = context();
    ctx.ffmpeg_path = Ok("/opt/ff/bin/avconv".to_string());
    let args = build_download_args(&request(), &ctx).unwrap();
    let at = args.iter().position(|a| a == "--ffmpeg-location").unwrap();
    assert_eq!(args[at + 1], "/opt/ff/bin/avconv");
}

#[test]
fn build_download_args_absolute_output_dir() {
    let mut r = request();
    r.output_dir = "/media/out".to_string();
    let args = build_download_args(&r, &context()).unwrap();
    assert_eq!(args[16], "home:/media/out");
}

#[test]
fn build_download_args_errors_in_order() {
    let mut r = request();
    r.output_dir = "  ".to_string();
    r.rate_limit = "7M".to_string();
    assert_eq!(
        build_download_args(&r, &context()),
        Err("An output directory is required".to_string())
    );
    let mut r = request();
    r.rate_limit = "7M".to_string();
    r.cookie_browser = "lynx".to_string();
    assert_eq!(build_download_args(&r, &context()), Err("Unsupported rate limit: 7M".to_string()));
    let mut r = request();
    r.cookie_browser = "lynx".to_string();
    assert_eq!(
        build_download_args(&r, &context()),
        Err("Unsupported browser cookie source: lynx".to_string())
    );
    let mut r = request();
    r.network_stack = "tor".to_string();
    assert_eq!(build_download_args(&r, &context()), Err("Unsupported network stack: tor".to_string()));
    let mut r = request();
    r.mode = "gif".to_string();
    assert_eq!(build_download_args(&r, &context()), Err("Unsupported download mode: gif".to_string()));
    let mut r = request();
    r.extra_args = "'oops".to_string();
    assert_eq!(
        build_download_args(&r, &context()),
        Err("Extra yt-dlp arguments contain an unclosed quote".to_string())
    );
}

#[test]
fn build_download_args_context_errors() {
    let mut ctx = context();
    ctx.temp_dir = Err("no temp".to_string());
    assert_eq!(build_download_args(&request(), &ctx), Err("no temp".to_string()));
    let mut ctx = context();
    ctx.ffmpeg_path = Err("ffmpeg was not found".to_string());
    assert_eq!(build_download_args(&request(), &ctx), Err("ffmpeg was not found".to_string()));
    let mut ctx = context();
    ctx.archive_file = Err("no archive".to_string());
    assert!(build_download_args(&request(), &ctx).is_ok());
    let mut r = request();
    r.avoid_redownload = true;
    assert_eq!(build_download_args(&r, &ctx), Err("no archive".to_string()));
}

#[test]
fn probe_args_shape() {
    let r = ProbeRequest { url: " https://x.test/p ".to_string(), include_playlist: true };
    assert_eq!(
        probe_args(&r, Some("C:\\d\\deno.exe")),
        strings(&[
            "--dump-single-json",
            "--no-warnings",
            "--skip-download",
            "--js-runtimes",
            "deno:C:/d/deno.exe",
            "--yes-playlist",
            " https://x.test/p ",
        ])
    );
    let r = ProbeRequest { url: "https://x.test/v".to_string(), include_playlist: false };
    assert_eq!(
        probe_args(&r, None),
        strings(&["--dump-single-json", "--no-warnings", "--skip-download", "--no-playlist", "https://x.test/v"])
    );
}
