use daedalus::metadata::{metadata_from_raw, string_field, RawFormat, RawSource};
use daedalus::output::{
    cleaned_message, command_error, completed_message, download_result, exit_message,
    first_version_line, progress_cut_would_panic, progress_text, started_message, trim_tail,
};

fn raw_format(id: &str) -> RawFormat {
    RawFormat {
        format_id: Some(id.to_string()),
        ext: None,
        resolution: None,
        width: None,
        height: None,
        fps_bits: None,
        filesize: None,
        filesize_approx: None,
        vcodec: None,
        acodec: None,
    }
}

fn raw_source() -> RawSource {
    RawSource {
        id: None,
        title: None,
        uploader: None,
        channel: None,
        webpage_url: None,
        extractor_key: None,
        extractor: None,
        duration_bits: None,
        thumbnail: None,
        is_live: None,
        entries_len: None,
        playlist_count: None,
        formats: None,
    }
}

#[test]
fn string_field_trims_and_drops_blank() {
    assert_eq!(string_field(&Some("  hi ".to_string())), Some("hi".to_string()));
    assert_eq!(string_field(&Some(" \t ".to_string())), None);
    assert_eq!(string_field(&None), None);
}

#[test]
fn metadata_fallbacks() {
    let mut raw = raw_source();
    raw.id = Some("abc".to_string());
    raw.title = Some(" Title ".to_string());
    raw.uploader = Some("  ".to_string());
    raw.channel = Some("Chan".to_string());
    raw.extractor = Some("youtube".to_string());
    raw.duration_bits = Some(12.5f64.to_bits());
    raw.is_live = Some(true);
    raw.playlist_count = Some(7);
    let m = metadata_from_raw(&raw);
    assert_eq!(m.id, Some("abc".to_string()));
    assert_eq!(m.title, Some("Title".to_string()));
    assert_eq!(m.uploader, Some("Chan".to_string()));
    assert_eq!(m.extractor, Some("youtube".to_string()));
    assert_eq!(m.duration_bits.map(f64::from_bits), Some(12.5));
    assert!(m.is_live);
    assert_eq!(m.entry_count, Some(7));
    assert!(m.formats.is_empty());
}

#[test]
fn metadata_prefers_entries_and_extractor_key() {
    let mut raw = raw_source();
    raw.extractor_key = Some("Youtube".to_string());
    raw.extractor = Some("youtube".to_string());
    raw.entries_len = Some(3);
    raw.playlist_count = Some(9);
    let m = metadata_from_raw(&raw);
    assert_eq!(m.extractor, Some("Youtube".to_string()));
    assert_eq!(m.entry_count, Some(3));
    assert!(!m.is_live);
}

#[test]
fn metadata_formats_latest_first_capped_at_80() {
    let mut raw = raw_source();
    raw.formats = Some((0..100).map(|i| raw_format(&i.to_string())).collect());
    let m = metadata_from_raw(&raw);
    assert_eq!(m.formats.len(), 80);
    assert_eq!(m.formats[0].format_id, Some("99".to_string()));
    assert_eq!(m.formats[79].format_id, Some("20".to_string()));
}

#[test]
fn format_resolution_and_size() {
    let mut f = raw_format("1");
    f.width = Some(1920);
    f.height = Some(1080);
    f.filesize = Some(None);
    f.filesize_approx = Some(5);
    let mut g = raw_format("2");
    g.height = Some(480);
    g.filesize_approx = Some(77);
    let mut h = raw_format("3");
    h.resolution = Some("audio only".to_string());
    h.width = Some(1);
    h.height = Some(2);
    h.filesize = Some(Some(9));
    let mut raw = raw_source();
    raw.formats = Some(vec![f, g, h]);
    let m = metadata_from_raw(&raw);
    assert_eq!(m.formats[0].resolution, Some("audio only".to_string()));
    assert_eq!(m.formats[0].filesize, Some(9));
    assert_eq!(m.formats[1].resolution, Some("480p".to_string()));
    assert_eq!(m.formats[1].filesize, Some(77));
    assert_eq!(m.formats[2].resolution, Some("1920x1080".to_string()));
    assert_eq!(m.formats[2].filesize, None);
}

#[test]
fn command_error_prefers_stderr() {
    assert_eq!(command_error("probe failed", b"  bad thing \n", b"out"), "probe failed: bad thing");
    assert_eq!(command_error("probe failed", b" \n ", b" out "), "probe failed: out");
    assert_eq!(command_error("probe failed", b"", b"\t"), "probe failed");
}

#[test]
fn command_error_replaces_invalid_utf8() {
    assert_eq!(command_error("p", &[0x66, 0xff, 0x67], b""), "p: f\u{fffd}g");
}

#[test]
fn trim_tail_keeps_last_lines() {
    let lines: Vec<String> = (0..5).map(|i| i.to_string()).collect();
    assert_eq!(trim_tail(lines.clone(), 10), lines);
    assert_eq!(trim_tail(lines.clone(), 2), vec!["3".to_string(), "4".to_string()]);
    assert_eq!(trim_tail(lines, 0), Vec::<String>::new());
}

#[test]
fn progress_text_extraction() {
    assert_eq!(progress_text("[download]  42.5% of 10.00MiB"), Some("42.5".to_string()));
    assert_eq!(progress_text("[download] 100% done"), Some("100".to_string()));
    assert_eq!(progress_text("no percent here"), None);
    assert_eq!(progress_text("ratio x% y"), Some(String::new()));
    assert_eq!(progress_text("7%"), Some("7".to_string()));
}

#[test]
fn progress_cut_panic_detection() {
    assert!(!progress_cut_would_panic("[download]  42.5%"));
    assert!(!progress_cut_would_panic("50%"));
    assert!(progress_cut_would_panic("é50%"));
    assert!(!progress_cut_would_panic("é 50%"));
    assert!(!progress_cut_would_panic("no percent é"));
}

#[test]
fn version_line_is_first_trimmed_line() {
    assert_eq!(first_version_line(b"\n  2024.08.06 \r\nextra\n"), Some("2024.08.06".to_string()));
    assert_eq!(first_version_line(b"   \n "), None);
    assert_eq!(first_version_line(b"ffmpeg version 7.0"), Some("ffmpeg version 7.0".to_string()));
}

#[test]
fn download_result_keeps_240_lines() {
    let lines: Vec<String> = (0..300).map(|i| i.to_string()).collect();
    let r = download_result(true, Some(0), lines);
    assert!(r.success);
    assert_eq!(r.code, Some(0));
    assert_eq!(r.output_tail.len(), 240);
    assert_eq!(r.output_tail[0], "60");
}

#[test]
fn run_messages() {
    assert_eq!(started_message(42), "Starting yt-dlp with 42 arguments");
    assert_eq!(cleaned_message(3), "Cleaned 3 temporary download file(s)");
    assert_eq!(exit_message(Some(1)), "yt-dlp exited with code Some(1)");
    assert_eq!(exit_message(Some(-2147483648)), "yt-dlp exited with code Some(-2147483648)");
    assert_eq!(exit_message(None), "yt-dlp exited with code None");
    assert_eq!(completed_message(), "Download completed");
}
