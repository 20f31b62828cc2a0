use daedalus::args::{
    append_cookie_args, append_js_runtime_args, append_network_args, append_rate_limit_args,
    default_retry_count, format_selector, output_template, validate_url, yt_dlp_path_arg,
};
use daedalus::split::parse_extra_args;

fn strings(items: &[&str]) -> Vec<String> {
    items.iter().map(|s| s.to_string()).collect()
}

#[test]
fn validate_url_accepts_http_and_https() {
    assert_eq!(validate_url("https://example.com/watch?v=1"), Ok(()));
    assert_eq!(validate_url("  http://example.com  "), Ok(()));
}

#[test]
fn validate_url_rejects_blank() {
    assert_eq!(validate_url("   "), Err("A URL is required".to_string()));
    assert_eq!(validate_url(""), Err("A URL is required".to_string()));
}

#[test]
fn validate_url_rejects_other_schemes() {
    assert_eq!(
        validate_url("ftp://example.com"),
        Err("The source must be an http or https URL".to_string())
    );
    assert_eq!(
        validate_url("HTTPS://example.com"),
        Err("The source must be an http or https URL".to_string())
    );
}

#[test]
fn rate_limit_none_and_blank_add_nothing() {
    let mut args = Vec::new();
    assert_eq!(append_rate_limit_args(&mut args, ""), Ok(()));
    assert_eq!(append_rate_limit_args(&mut args, " NoNe "), Ok(()));
    assert!(args.is_empty());
}

#[test]
fn rate_limit_is_uppercased() {
    let mut args = strings(&["x"]);
    assert_eq!(append_rate_limit_args(&mut args, " 10m "), Ok(()));
    assert_eq!(args, strings(&["x", "--limit-rate", "10M"]));
}

#[test]
fn rate_limit_rejects_unknown_value() {
    let mut args = strings(&["x"]);
    assert_eq!(
        append_rate_limit_args(&mut args, " 3m "),
        Err("Unsupported rate limit: 3m".to_string())
    );
    assert_eq!(args, strings(&["x"]));
}

#[test]
fn cookie_browser_is_lowercased() {
    let mut args = Vec::new();
    assert_eq!(append_cookie_args(&mut args, " Firefox "), Ok(()));
    assert_eq!(args, strings(&["--cookies-from-browser", "firefox"]));
}

#[test]
fn cookie_browser_none_adds_nothing() {
    let mut args = Vec::new();
    assert_eq!(append_cookie_args(&mut args, "NONE"), Ok(()));
    assert!(args.is_empty());
}

#[test]
fn cookie_browser_rejects_unknown() {
    let mut args = Vec::new();
    assert_eq!(
        append_cookie_args(&mut args, "Safari"),
        Err("Unsupported browser cookie source: safari".to_string())
    );
    assert!(args.is_empty());
}

#[test]
fn network_stack_choices() {
    let mut args = Vec::new();
    assert_eq!(append_network_args(&mut args, "auto"), Ok(()));
    assert_eq!(append_network_args(&mut args, " IPv4 "), Ok(()));
    assert_eq!(append_network_args(&mut args, "ipv6"), Ok(()));
    assert_eq!(args, strings(&["--force-ipv4", "--force-ipv6"]));
    assert_eq!(
        append_network_args(&mut args, "IPX"),
        Err("Unsupported network stack: ipx".to_string())
    );
}

#[test]
fn format_selector_small() {
    assert_eq!(format_selector("small", "mp4"), "worstvideo+worstaudio/worst");
}

#[test]
fn format_selector_mp4_with_height() {
    assert_eq!(
        format_selector("1080", "mp4"),
        "bv*[height<=1080][ext=mp4]+ba[ext=m4a]/b[height<=1080][ext=mp4]/bv*[height<=1080]+ba/b[height<=1080]"
    );
}

#[test]
fn format_selector_webm_without_height() {
    assert_eq!(
        format_selector("best", "webm"),
        "bv*[ext=webm]+ba[ext=webm]/b[ext=webm]/bv*+ba/b"
    );
}

#[test]
fn format_selector_other_container() {
    assert_eq!(format_selector("720", "mkv"), "bv*[height<=720]+ba/b[height<=720]");
    assert_eq!(format_selector("999", "source"), "bv*+ba/b");
}

#[test]
fn output_template_fallbacks() {
    assert_eq!(output_template("", false), "%(title)s.%(ext)s");
    assert_eq!(output_template("   ", true), "%(playlist_index)03d - %(title)s.%(ext)s");
}

#[test]
fn output_template_tags() {
    assert_eq!(
        output_template("{UPLOADER} - {TITLE} [{ID}].{EXT}", false),
        "%(uploader)s - %(title)s [%(id)s].%(ext)s"
    );
    assert_eq!(output_template("{UPLOADER_ID}/{FULL_TITLE}", false), "%(uploader_id)s/%(fulltitle)s.%(ext)s");
    assert_eq!(output_template("{DESCRIPTION}", false), "%(description).160s.%(ext)s");
}

#[test]
fn output_template_adds_extension_when_missing() {
    assert_eq!(output_template("clip", false), "clip.%(ext)s");
    assert_eq!(output_template("clip.%(ext)s", false), "clip.%(ext)s");
}

#[test]
fn path_arg_uses_forward_slashes() {
    assert_eq!(yt_dlp_path_arg("C:\\Users\\me\\Videos"), "C:/Users/me/Videos");
}

#[test]
fn js_runtime_args_name_deno() {
    let mut args = Vec::new();
    append_js_runtime_args(&mut args, None);
    assert!(args.is_empty());
    append_js_runtime_args(&mut args, Some("C:\\tools\\deno.exe"));
    assert_eq!(args, strings(&["--js-runtimes", "deno:C:/tools/deno.exe"]));
}

#[test]
fn default_retry_count_is_ten() {
    assert_eq!(default_retry_count(), 10);
}

#[test]
fn extra_args_split_on_whitespace() {
    assert_eq!(parse_extra_args("  --foo   bar\t--baz "), Ok(strings(&["--foo", "bar", "--baz"])));
    assert_eq!(parse_extra_args(""), Ok(Vec::new()));
}

#[test]
fn extra_args_quotes_keep_spaces() {
    assert_eq!(
        parse_extra_args("--title \"a b\" 'c d'"),
        Ok(strings(&["--title", "a b", "c d"]))
    );
    assert_eq!(parse_extra_args("x\"y z\"w"), Ok(strings(&["xy zw"])));
}

#[test]
fn extra_args_escapes_inside_quotes() {
    assert_eq!(parse_extra_args("\"a\\\"b\""), Ok(strings(&["a\"b"])));
    assert_eq!(parse_extra_args("c:\\path"), Ok(strings(&["c:\\path"])));
}

#[test]
fn extra_args_empty_quotes_vanish() {
    assert_eq!(parse_extra_args("\"\" a"), Ok(strings(&["a"])));
}

#[test]
fn extra_args_unclosed_quote() {
    assert_eq!(
        parse_extra_args("--x \"open"),
        Err("Extra yt-dlp arguments contain an unclosed quote".to_string())
    );
    assert_eq!(
        parse_extra_args("'a\\"),
        Err("Extra yt-dlp arguments contain an unclosed quote".to_string())
    );
}

#[test]
fn extra_args_plain_words_round_trip() {
    let words = strings(&["--foo", "bar", "c:\\x", "-f=1"]);
    assert_eq!(parse_extra_args(&words.join(" ")), Ok(words));
}

#[test]
fn unquoted_extra_args_split_like_split_whitespace() {
    let raw = "  -f  best\t--no-mtime\n x\\y\u{3000}--flag ";
    let expected: Vec<String> = raw.split_whitespace().map(String::from).collect();
    assert_eq!(parse_extra_args(raw), Ok(expected));
    assert_eq!(
        parse_extra_args("  -f  best\t--no-mtime\n x\\y "),
        Ok(strings(&["-f", "best", "--no-mtime", "x\\y"]))
    );
    assert_eq!(parse_extra_args(" \t "), Ok(Vec::new()));
}

#[test]
fn output_template_is_settled() {
    for raw in ["", "   ", "My {TITLE}", " {UPLOADER} - {TITLE} [{ID}].{EXT} ", "{{TITLE}}", "x%(ext)y"] {
        for playlist in [false, true] {
            let once = output_template(raw, playlist);
            assert!(once.contains("%(ext)"));
            assert_eq!(output_template(&once, false), once);
            assert_eq!(output_template(&once, true), once);
        }
    }
    assert_eq!(output_template("{{TITLE}}", false), "{%(title)s}.%(ext)s");
}
