//! The command-line arguments handed to yt-dlp.
use vstd::prelude::*;
use crate::text::{
    ascii_lower, ascii_lower_chars, ascii_upper, ascii_upper_chars, chars_eq_str, chars_of,
    eq_ignore_ascii_case_chars, same_ignoring_ascii_case, starts_with, starts_with_chars, string_of,
    trim, trim_chars, push_all, replace_all, replace_all_chars, contains, contains_chars,
    replace_char, replace_char_chars, occurs_at, lower_char, upper_char, is_white_space,
    lemma_trim_ends, lemma_trim_keeps,
};

verus! {

/// The text of each string in `v`.
pub open spec fn strings_view(v: Seq<String>) -> Seq<Seq<char>> {
    v.map_values(|s: String| s@)
}

/// Appends `s` to `args`.
pub fn push_arg(args: &mut Vec<String>, s: String)
    ensures
        strings_view(final(args)@) == strings_view(old(args)@).push(s@),
{
    let ghost before = args@;
    args.push(s);
    assert(strings_view(args@) == strings_view(before).push(s@));
}

/// Appends the literal `lit` to `args`.
pub fn push_lit(args: &mut Vec<String>, lit: &str)
    ensures
        strings_view(final(args)@) == strings_view(old(args)@).push(lit@),
{
    push_arg(args, String::from_str(lit));
}

/// `lit` followed by `rest`.
pub fn concat_lit(lit: &str, rest: &str) -> (r: String)
    ensures
        r@ == lit@ + rest@,
{
    let mut s = String::from_str(lit);
    s.append(rest);
    s
}

// ---------------------------------------------------------------------------
// URL
// ---------------------------------------------------------------------------

/// Why `url` cannot be downloaded from, if it cannot.
pub open spec fn url_problem(url: Seq<char>) -> Option<Seq<char>> {
    let t = trim(url);
    if t.len() == 0 {
        Some("A URL is required"@)
    } else if !(starts_with(t, "http://"@) || starts_with(t, "https://"@)) {
        Some("The source must be an http or https URL"@)
    } else {
        None
    }
}

/// Accepts a URL whose trimmed text starts with `http://` or `https://`.
pub fn validate_url(url: &str) -> (r: Result<(), String>)
    ensures
        r is Ok <==> url_problem(url@) is None,
        r matches Err(e) ==> url_problem(url@) == Some(e@),
{
    let cs = chars_of(url);
    let t = trim_chars(&cs);
    if t.len() == 0 {
        return Err(String::from_str("A URL is required"));
    }
    let http = chars_of("http://");
    let https = chars_of("https://");
    if !(starts_with_chars(&t, &http) || starts_with_chars(&t, &https)) {
        return Err(String::from_str("The source must be an http or https URL"));
    }
    Ok(())
}

// ---------------------------------------------------------------------------
// Rate limit, cookies, network stack
// ---------------------------------------------------------------------------

/// The rate limits a request may name, ignoring ASCII case.
pub open spec fn allowed_rate_limit(n: Seq<char>) -> bool {
    ||| same_ignoring_ascii_case(n, "1M"@)
    ||| same_ignoring_ascii_case(n, "2M"@)
    ||| same_ignoring_ascii_case(n, "5M"@)
    ||| same_ignoring_ascii_case(n, "10M"@)
    ||| same_ignoring_ascii_case(n, "25M"@)
}

/// The arguments a rate-limit setting adds, or why it is refused.
pub open spec fn rate_limit_args(rate_limit: Seq<char>) -> Result<Seq<Seq<char>>, Seq<char>> {
    let n = trim(rate_limit);
    if n.len() == 0 || same_ignoring_ascii_case(n, "none"@) {
        Ok(seq![])
    } else if !allowed_rate_limit(n) {
        Err("Unsupported rate limit: "@ + n)
    } else {
        Ok(seq!["--limit-rate"@, ascii_upper(n)])
    }
}

/// Adds `--limit-rate` for an allowed rate limit; leaves `args` unchanged
/// otherwise.
pub fn append_rate_limit_args(args: &mut Vec<String>, rate_limit: &str) -> (r: Result<(), String>)
    ensures
        r is Ok <==> rate_limit_args(rate_limit@) is Ok,
        r matches Err(e) ==> rate_limit_args(rate_limit@) == Err::<Seq<Seq<char>>, Seq<char>>(e@)
            && final(args)@ == old(args)@,
        r is Ok ==> strings_view(final(args)@) == strings_view(old(args)@) + rate_limit_args(
            rate_limit@,
        )->Ok_0,
{
    let cs = chars_of(rate_limit);
    let n = trim_chars(&cs);
    let none = chars_of("none");
    if n.len() == 0 || eq_ignore_ascii_case_chars(&n, &none) {
        assert(strings_view(args@) + seq![] == strings_view(args@));
        return Ok(());
    }
    let a1 = chars_of("1M");
    let a2 = chars_of("2M");
    let a5 = chars_of("5M");
    let a10 = chars_of("10M");
    let a25 = chars_of("25M");
    let allowed = eq_ignore_ascii_case_chars(&n, &a1) || eq_ignore_ascii_case_chars(&n, &a2)
        || eq_ignore_ascii_case_chars(&n, &a5) || eq_ignore_ascii_case_chars(&n, &a10)
        || eq_ignore_ascii_case_chars(&n, &a25);
    if !allowed {
        let ns = string_of(&n);
        return Err(concat_lit("Unsupported rate limit: ", ns.as_str()));
    }
    let ghost before = strings_view(args@);
    push_lit(args, "--limit-rate");
    let up = ascii_upper_chars(&n);
    push_arg(args, string_of(&up));
    assert(strings_view(args@) == before + seq!["--limit-rate"@, ascii_upper(n@)]);
    Ok(())
}

/// The browsers whose cookies may be used.
pub open spec fn allowed_browser(n: Seq<char>) -> bool {
    ||| n == "firefox"@
    ||| n == "chrome"@
    ||| n == "edge"@
    ||| n == "brave"@
    ||| n == "opera"@
    ||| n == "vivaldi"@
}

/// The arguments a cookie-browser setting adds, or why it is refused.
pub open spec fn cookie_args(browser: Seq<char>) -> Result<Seq<Seq<char>>, Seq<char>> {
    let n = ascii_lower(trim(browser));
    if n.len() == 0 || n == "none"@ {
        Ok(seq![])
    } else if !allowed_browser(n) {
        Err("Unsupported browser cookie source: "@ + n)
    } else {
        Ok(seq!["--cookies-from-browser"@, n])
    }
}

/// Adds `--cookies-from-browser` for an allowed browser.
pub fn append_cookie_args(args: &mut Vec<String>, browser: &str) -> (r: Result<(), String>)
    ensures
        r is Ok <==> cookie_args(browser@) is Ok,
        r matches Err(e) ==> cookie_args(browser@) == Err::<Seq<Seq<char>>, Seq<char>>(e@)
            && final(args)@ == old(args)@,
        r is Ok ==> strings_view(final(args)@) == strings_view(old(args)@) + cookie_args(
            browser@,
        )->Ok_0,
{
    let cs = chars_of(browser);
    let t = trim_chars(&cs);
    let n = ascii_lower_chars(&t);
    if n.len() == 0 || chars_eq_str(&n, "none") {
        assert(strings_view(args@) + seq![] == strings_view(args@));
        return Ok(());
    }
    let allowed = chars_eq_str(&n, "firefox") || chars_eq_str(&n, "chrome") || chars_eq_str(
        &n,
        "edge",
    ) || chars_eq_str(&n, "brave") || chars_eq_str(&n, "opera") || chars_eq_str(&n, "vivaldi");
    let ns = string_of(&n);
    if !allowed {
        return Err(concat_lit("Unsupported browser cookie source: ", ns.as_str()));
    }
    let ghost before = strings_view(args@);
    push_lit(args, "--cookies-from-browser");
    push_arg(args, ns);
    assert(strings_view(args@) == before + seq!["--cookies-from-browser"@, n@]);
    Ok(())
}

/// The arguments a network-stack setting adds, or why it is refused.
pub open spec fn network_args(network_stack: Seq<char>) -> Result<Seq<Seq<char>>, Seq<char>> {
    let n = ascii_lower(trim(network_stack));
    if n.len() == 0 || n == "auto"@ {
        Ok(seq![])
    } else if n == "ipv4"@ {
        Ok(seq!["--force-ipv4"@])
    } else if n == "ipv6"@ {
        Ok(seq!["--force-ipv6"@])
    } else {
        Err("Unsupported network stack: "@ + n)
    }
}

/// Adds `--force-ipv4` or `--force-ipv6` as the network stack asks.
pub fn append_network_args(args: &mut Vec<String>, network_stack: &str) -> (r: Result<(), String>)
    ensures
        r is Ok <==> network_args(network_stack@) is Ok,
        r matches Err(e) ==> network_args(network_stack@) == Err::<Seq<Seq<char>>, Seq<char>>(e@)
            && final(args)@ == old(args)@,
        r is Ok ==> strings_view(final(args)@) == strings_view(old(args)@) + network_args(
            network_stack@,
        )->Ok_0,
{
    let cs = chars_of(network_stack);
    let t = trim_chars(&cs);
    let n = ascii_lower_chars(&t);
    let ghost before = strings_view(args@);
    if n.len() == 0 || chars_eq_str(&n, "auto") {
        assert(before + seq![] == before);
        Ok(())
    } else if chars_eq_str(&n, "ipv4") {
        push_lit(args, "--force-ipv4");
        assert(strings_view(args@) == before + seq!["--force-ipv4"@]);
        Ok(())
    } else if chars_eq_str(&n, "ipv6") {
        push_lit(args, "--force-ipv6");
        assert(strings_view(args@) == before + seq!["--force-ipv6"@]);
        Ok(())
    } else {
        let ns = string_of(&n);
        Err(concat_lit("Unsupported network stack: ", ns.as_str()))
    }
}


proof fn lemma_upper_ignores_case(a: Seq<char>, b: Seq<char>)
    requires
        same_ignoring_ascii_case(a, b),
    ensures
        ascii_upper(a) == ascii_upper(b),
{
    assert(ascii_lower(a).len() == ascii_lower(b).len());
    assert forall|i: int| 0 <= i < a.len() implies ascii_upper(a)[i] == ascii_upper(b)[i] by {
        assert(ascii_lower(a)[i] == lower_char(a[i]));
        assert(ascii_lower(b)[i] == lower_char(b[i]));
        assert(upper_char(a[i]) == upper_char(lower_char(a[i])));
        assert(upper_char(b[i]) == upper_char(lower_char(b[i])));
    }
    assert(ascii_upper(a) =~= ascii_upper(b));
}

/// An accepted rate limit reaches yt-dlp in its canonical spelling: exactly one
/// of `1M`, `2M`, `5M`, `10M` and `25M`, whatever case the user typed.
pub proof fn law_rate_limit_canonical(rate_limit: Seq<char>)
    ensures
        rate_limit_args(rate_limit) matches Ok(a) ==> a.len() == 0 || (a.len() == 2 && a[0]
            == "--limit-rate"@ && (a[1] == "1M"@ || a[1] == "2M"@ || a[1] == "5M"@ || a[1]
            == "10M"@ || a[1] == "25M"@)),
{
    reveal_strlit("1M");
    reveal_strlit("2M");
    reveal_strlit("5M");
    reveal_strlit("10M");
    reveal_strlit("25M");
    let n = trim(rate_limit);
    if allowed_rate_limit(n) {
        if same_ignoring_ascii_case(n, "1M"@) {
            lemma_upper_ignores_case(n, "1M"@);
            assert(ascii_upper("1M"@) =~= "1M"@);
        } else if same_ignoring_ascii_case(n, "2M"@) {
            lemma_upper_ignores_case(n, "2M"@);
            assert(ascii_upper("2M"@) =~= "2M"@);
        } else if same_ignoring_ascii_case(n, "5M"@) {
            lemma_upper_ignores_case(n, "5M"@);
            assert(ascii_upper("5M"@) =~= "5M"@);
        } else if same_ignoring_ascii_case(n, "10M"@) {
            lemma_upper_ignores_case(n, "10M"@);
            assert(ascii_upper("10M"@) =~= "10M"@);
        } else {
            lemma_upper_ignores_case(n, "25M"@);
            assert(ascii_upper("25M"@) =~= "25M"@);
        }
    }
}

// ---------------------------------------------------------------------------
// Format selection
// ---------------------------------------------------------------------------

/// The qualities that cap the video height.
pub open spec fn height_quality(q: Seq<char>) -> bool {
    q == "2160"@ || q == "1440"@ || q == "1080"@ || q == "720"@ || q == "480"@
}

/// The height filter for a quality: `[height<=Q]` for a capped quality, else empty.
pub open spec fn height_filter(q: Seq<char>) -> Seq<char> {
    if height_quality(q) {
        "[height<="@ + q + "]"@
    } else {
        Seq::empty()
    }
}

/// The yt-dlp format selector for a quality and a container.
pub open spec fn format_selector_spec(quality: Seq<char>, container: Seq<char>) -> Seq<char> {
    let h = height_filter(quality);
    if quality == "small"@ {
        "worstvideo+worstaudio/worst"@
    } else if container == "mp4"@ || container == "mov"@ {
        "bv*"@ + h + "[ext=mp4]+ba[ext=m4a]/b"@ + h + "[ext=mp4]/bv*"@ + h + "+ba/b"@ + h
    } else if container == "webm"@ {
        "bv*"@ + h + "[ext=webm]+ba[ext=webm]/b"@ + h + "[ext=webm]/bv*"@ + h + "+ba/b"@ + h
    } else {
        "bv*"@ + h + "+ba/b"@ + h
    }
}

/// Appends the characters of the literal `lit`.
fn push_lit_chars(v: &mut Vec<char>, lit: &str)
    ensures
        final(v)@ == old(v)@ + lit@,
{
    let l = chars_of(lit);
    push_all(v, &l);
}

/// The yt-dlp format selector for a quality and a container.
#[verifier::rlimit(40)]
pub fn format_selector(quality: &str, container: &str) -> (r: String)
    ensures
        r@ == format_selector_spec(quality@, container@),
{
    let q = chars_of(quality);
    let c = chars_of(container);
    if chars_eq_str(&q, "small") {
        return String::from_str("worstvideo+worstaudio/worst");
    }
    let mut h: Vec<char> = Vec::new();
    if chars_eq_str(&q, "2160") || chars_eq_str(&q, "1440") || chars_eq_str(&q, "1080")
        || chars_eq_str(&q, "720") || chars_eq_str(&q, "480") {
        push_lit_chars(&mut h, "[height<=");
        push_all(&mut h, &q);
        push_lit_chars(&mut h, "]");
    }
    assert(h@ == height_filter(quality@));
    let mut v: Vec<char> = Vec::new();
    if chars_eq_str(&c, "mp4") || chars_eq_str(&c, "mov") {
        push_lit_chars(&mut v, "bv*");
        push_all(&mut v, &h);
        push_lit_chars(&mut v, "[ext=mp4]+ba[ext=m4a]/b");
        push_all(&mut v, &h);
        push_lit_chars(&mut v, "[ext=mp4]/bv*");
        push_all(&mut v, &h);
        push_lit_chars(&mut v, "+ba/b");
        push_all(&mut v, &h);
    } else if chars_eq_str(&c, "webm") {
        push_lit_chars(&mut v, "bv*");
        push_all(&mut v, &h);
        push_lit_chars(&mut v, "[ext=webm]+ba[ext=webm]/b");
        push_all(&mut v, &h);
        push_lit_chars(&mut v, "[ext=webm]/bv*");
        push_all(&mut v, &h);
        push_lit_chars(&mut v, "+ba/b");
        push_all(&mut v, &h);
    } else {
        push_lit_chars(&mut v, "bv*");
        push_all(&mut v, &h);
        push_lit_chars(&mut v, "+ba/b");
        push_all(&mut v, &h);
    }
    string_of(&v)
}

// ---------------------------------------------------------------------------
// Output file name template
// ---------------------------------------------------------------------------

/// The template used when the request gives none.
pub open spec fn fallback_template(include_playlist: bool) -> Seq<char> {
    if include_playlist {
        "{PLAYLIST_INDEX} - {TITLE}.{FILE_EXTENSION}"@
    } else {
        "{TITLE}.{FILE_EXTENSION}"@
    }
}

/// The template text before its tags are expanded.
pub open spec fn template_source(raw: Seq<char>, include_playlist: bool) -> Seq<char> {
    if trim(raw).len() == 0 {
        fallback_template(include_playlist)
    } else {
        trim(raw)
    }
}

/// The template's tags replaced, in order, by yt-dlp's output fields.
pub open spec fn expand_tags(s: Seq<char>) -> Seq<char> {
    let s1 = replace_all(s, "{TITLE}"@, "%(title)s"@);
    let s2 = replace_all(s1, "{FULL_TITLE}"@, "%(fulltitle)s"@);
    let s3 = replace_all(s2, "{FILE_EXTENSION}"@, "%(ext)s"@);
    let s4 = replace_all(s3, "{EXT}"@, "%(ext)s"@);
    let s5 = replace_all(s4, "{UPLOADER}"@, "%(uploader)s"@);
    let s6 = replace_all(s5, "{UPLOADER_ID}"@, "%(uploader_id)s"@);
    let s7 = replace_all(s6, "{ID}"@, "%(id)s"@);
    let s8 = replace_all(s7, "{DESCRIPTION}"@, "%(description).160s"@);
    replace_all(s8, "{PLAYLIST_INDEX}"@, "%(playlist_index)03d"@)
}

/// The yt-dlp output template for a request's file name template.
pub open spec fn output_template_spec(raw: Seq<char>, include_playlist: bool) -> Seq<char> {
    let source = template_source(raw, include_playlist);
    let t = expand_tags(source);
    if !contains(source, "{FILE_EXTENSION}"@) && !contains(source, "{EXT}"@) && !contains(
        t,
        "%(ext)"@,
    ) {
        t + ".%(ext)s"@
    } else {
        t
    }
}

/// One tag replacement on a character vector.
fn replace_tag(s: &[char], tag: &str, value: &str) -> (r: Vec<char>)
    requires
        tag@.len() > 0,
    ensures
        r@ == replace_all(s@, tag@, value@),
{
    let t = chars_of(tag);
    let v = chars_of(value);
    replace_all_chars(s, &t, &v)
}

/// The yt-dlp output template for a request's file name template.
#[verifier::rlimit(40)]
pub fn output_template(raw_template: &str, include_playlist: bool) -> (r: String)
    ensures
        r@ == output_template_spec(raw_template@, include_playlist),
{
    proof {
        reveal_strlit("{TITLE}");
        reveal_strlit("{FULL_TITLE}");
        reveal_strlit("{FILE_EXTENSION}");
        reveal_strlit("{EXT}");
        reveal_strlit("{UPLOADER}");
        reveal_strlit("{UPLOADER_ID}");
        reveal_strlit("{ID}");
        reveal_strlit("{DESCRIPTION}");
        reveal_strlit("{PLAYLIST_INDEX}");
    }
    let raw = chars_of(raw_template);
    let trimmed = trim_chars(&raw);
    let source = if trimmed.len() == 0 {
        if include_playlist {
            chars_of("{PLAYLIST_INDEX} - {TITLE}.{FILE_EXTENSION}")
        } else {
            chars_of("{TITLE}.{FILE_EXTENSION}")
        }
    } else {
        trimmed
    };
    let s1 = replace_tag(&source, "{TITLE}", "%(title)s");
    let s2 = replace_tag(&s1, "{FULL_TITLE}", "%(fulltitle)s");
    let s3 = replace_tag(&s2, "{FILE_EXTENSION}", "%(ext)s");
    let s4 = replace_tag(&s3, "{EXT}", "%(ext)s");
    let s5 = replace_tag(&s4, "{UPLOADER}", "%(uploader)s");
    let s6 = replace_tag(&s5, "{UPLOADER_ID}", "%(uploader_id)s");
    let s7 = replace_tag(&s6, "{ID}", "%(id)s");
    let s8 = replace_tag(&s7, "{DESCRIPTION}", "%(description).160s");
    let mut t = replace_tag(&s8, "{PLAYLIST_INDEX}", "%(playlist_index)03d");
    let file_ext = chars_of("{FILE_EXTENSION}");
    let ext = chars_of("{EXT}");
    let ext_field = chars_of("%(ext)");
    if !contains_chars(&source, &file_ext) && !contains_chars(&source, &ext) && !contains_chars(
        &t,
        &ext_field,
    ) {
        push_lit_chars(&mut t, ".%(ext)s");
    }
    string_of(&t)
}

// ---------------------------------------------------------------------------
// Paths as yt-dlp reads them
// ---------------------------------------------------------------------------

/// A path with back slashes turned into forward slashes.
pub open spec fn path_arg_spec(path: Seq<char>) -> Seq<char> {
    replace_char(path, '\\', '/')
}

/// A path as yt-dlp is given it: back slashes turned into forward slashes.
pub fn yt_dlp_path_arg(path: &str) -> (r: String)
    ensures
        r@ == path_arg_spec(path@),
{
    let cs = chars_of(path);
    let out = replace_char_chars(&cs, '\\', '/');
    string_of(&out)
}

/// The arguments that name Deno as yt-dlp's JavaScript runtime, when Deno was found.
pub open spec fn js_runtime_args(deno: Option<Seq<char>>) -> Seq<Seq<char>> {
    match deno {
        Some(p) => seq!["--js-runtimes"@, "deno:"@ + path_arg_spec(p)],
        None => seq![],
    }
}

/// Adds `--js-runtimes deno:PATH` when a Deno executable was found.
pub fn append_js_runtime_args(args: &mut Vec<String>, deno_path: Option<&str>)
    ensures
        strings_view(final(args)@) == strings_view(old(args)@) + js_runtime_args(
            match deno_path { Some(p) => Some(p@), None => None },
        ),
{
    let ghost before = strings_view(args@);
    match deno_path {
        Some(p) => {
            push_lit(args, "--js-runtimes");
            let a = yt_dlp_path_arg(p);
            push_arg(args, concat_lit("deno:", a.as_str()));
            assert(strings_view(args@) == before + js_runtime_args(Some(p@)));
        },
        None => {
            assert(before + seq![] == before);
        },
    }
}

/// The number of retries a request gets when it names none.
pub fn default_retry_count() -> (r: u8)
    ensures
        r == 10,
{
    10
}


// ---------------------------------------------------------------------------
// Laws of the output template
// ---------------------------------------------------------------------------

/// A tag: `{`, then characters that are neither brace, then `}`.
pub open spec fn tag_like(t: Seq<char>) -> bool {
    &&& t.len() >= 2
    &&& t[0] == '{'
    &&& t[t.len() - 1] == '}'
    &&& forall|k: int| 1 <= k < t.len() - 1 ==> #[trigger] t[k] != '{' && t[k] != '}'
}

/// Text that starts with `%` and holds no brace.
pub open spec fn field_like(t: Seq<char>) -> bool {
    &&& t.len() >= 1
    &&& t[0] == '%'
    &&& forall|k: int| 0 <= k < t.len() ==> #[trigger] t[k] != '{' && t[k] != '}'
}

/// A tag holds no `%`.
pub open spec fn percent_free(t: Seq<char>) -> bool {
    forall|k: int| 0 <= k < t.len() ==> #[trigger] t[k] != '%'
}

proof fn lemma_contains_after(pre: Seq<char>, rest: Seq<char>, p: Seq<char>)
    requires
        contains(rest, p),
    ensures
        contains(pre + rest, p),
{
    let w = choose|k: int| occurs_at(rest, p, k);
    assert((pre + rest).subrange(w + pre.len(), w + pre.len() + p.len()) == rest.subrange(
        w,
        w + p.len(),
    ));
    assert(occurs_at(pre + rest, p, w + pre.len()));
}

proof fn lemma_contains_before(s: Seq<char>, post: Seq<char>, p: Seq<char>)
    requires
        contains(s, p),
    ensures
        contains(s + post, p),
{
    let w = choose|k: int| occurs_at(s, p, k);
    assert((s + post).subrange(w, w + p.len()) == s.subrange(w, w + p.len()));
    assert(occurs_at(s + post, p, w));
}

proof fn lemma_replace_copies(s: Seq<char>, from: Seq<char>, to: Seq<char>, k: int)
    requires
        from.len() > 0,
        0 <= k <= s.len(),
        forall|j: int| 0 <= j < k ==> !occurs_at(s, from, j),
    ensures
        replace_all(s, from, to) == s.take(k) + replace_all(s.skip(k), from, to),
    decreases k,
{
    if k == 0 {
        assert(s.skip(0) == s);
        assert(s.take(0) + replace_all(s, from, to) == replace_all(s, from, to));
    } else {
        let d = s.drop_first();
        assert(!occurs_at(s, from, 0));
        assert forall|j: int| 0 <= j < k - 1 implies !occurs_at(d, from, j) by {
            if occurs_at(d, from, j) {
                assert(s.subrange(j + 1, j + 1 + from.len()) == d.subrange(j, j + from.len()));
                assert(occurs_at(s, from, j + 1));
            }
        }
        lemma_replace_copies(d, from, to, k - 1);
        assert(seq![s[0]] + d.take(k - 1) == s.take(k));
        assert(d.skip(k - 1) == s.skip(k));
    }
}

/// An occurrence of `p` that no occurrence of `from` overlaps survives the
/// replacement of `from`.
proof fn lemma_replace_keeps(s: Seq<char>, from: Seq<char>, to: Seq<char>, p: Seq<char>, i: int)
    requires
        from.len() > 0,
        p.len() > 0,
        occurs_at(s, p, i),
        forall|j: int|
            occurs_at(s, from, j) ==> j + from.len() <= i || j >= i + p.len(),
    ensures
        contains(replace_all(s, from, to), p),
    decreases s.len(),
{
    if occurs_at(s, from, 0) {
        let r = s.skip(from.len() as int);
        let i2 = i - from.len();
        assert(r.subrange(i2, i2 + p.len()) == s.subrange(i, i + p.len()));
        assert forall|j: int| occurs_at(r, from, j) implies j + from.len() <= i2 || j >= i2
            + p.len() by {
            assert(s.subrange(j + from.len(), j + from.len() + from.len()) == r.subrange(
                j,
                j + from.len(),
            ));
            assert(occurs_at(s, from, j + from.len()));
        }
        lemma_replace_keeps(r, from, to, p, i2);
        lemma_contains_after(to, replace_all(r, from, to), p);
    } else if i == 0 {
        assert forall|j: int| 0 <= j < p.len() implies !occurs_at(s, from, j) by {}
        lemma_replace_copies(s, from, to, p.len() as int);
        assert(s.take(p.len() as int) == p);
        let whole = p + replace_all(s.skip(p.len() as int), from, to);
        assert(whole.subrange(0, p.len() as int) == p);
        assert(occurs_at(whole, p, 0));
    } else {
        let d = s.drop_first();
        assert(d.subrange(i - 1, i - 1 + p.len()) == s.subrange(i, i + p.len()));
        assert forall|j: int| occurs_at(d, from, j) implies j + from.len() <= i - 1 || j >= i - 1
            + p.len() by {
            assert(s.subrange(j + 1, j + 1 + from.len()) == d.subrange(j, j + from.len()));
            assert(occurs_at(s, from, j + 1));
        }
        lemma_replace_keeps(d, from, to, p, i - 1);
        lemma_contains_after(seq![s[0]], replace_all(d, from, to), p);
    }
}

/// Replacing `from` in text that holds it leaves `to` in the result.
proof fn lemma_replace_shows(s: Seq<char>, from: Seq<char>, to: Seq<char>)
    requires
        from.len() > 0,
        contains(s, from),
    ensures
        contains(replace_all(s, from, to), to),
    decreases s.len(),
{
    if occurs_at(s, from, 0) {
        let r = replace_all(s.skip(from.len() as int), from, to);
        assert((to + r).subrange(0, to.len() as int) == to);
        assert(occurs_at(to + r, to, 0));
    } else {
        let w = choose|k: int| occurs_at(s, from, k);
        let d = s.drop_first();
        assert(w > 0);
        assert(d.subrange(w - 1, w - 1 + from.len()) == s.subrange(w, w + from.len()));
        assert(occurs_at(d, from, w - 1));
        lemma_replace_shows(d, from, to);
        lemma_contains_after(seq![s[0]], replace_all(d, from, to), to);
    }
}

/// A field survives the replacement of a tag.
proof fn lemma_field_survives(s: Seq<char>, tag: Seq<char>, to: Seq<char>, p: Seq<char>)
    requires
        tag_like(tag),
        percent_free(tag),
        field_like(p),
        contains(s, p),
    ensures
        contains(replace_all(s, tag, to), p),
{
    let i = choose|k: int| occurs_at(s, p, k);
    assert forall|j: int| occurs_at(s, tag, j) implies j + tag.len() <= i || j >= i + p.len() by {
        if j <= i && i < j + tag.len() {
            assert(s[i] == p[0]);
            assert(s.subrange(j, j + tag.len())[i - j] == s[i]);
            assert(tag[i - j] == '%');
        } else if i < j && j < i + p.len() {
            assert(s.subrange(i, i + p.len())[j - i] == s[j]);
            assert(s.subrange(j, j + tag.len())[0] == s[j]);
            assert(p[j - i] == '{');
        }
    }
    lemma_replace_keeps(s, tag, to, p, i);
}

/// A tag survives the replacement of a different tag.
proof fn lemma_tag_survives(s: Seq<char>, tag: Seq<char>, to: Seq<char>, p: Seq<char>)
    requires
        tag_like(tag),
        tag_like(p),
        tag != p,
        contains(s, p),
    ensures
        contains(replace_all(s, tag, to), p),
{
    let i = choose|k: int| occurs_at(s, p, k);
    assert forall|j: int| occurs_at(s, tag, j) implies j + tag.len() <= i || j >= i + p.len() by {
        let ts = s.subrange(j, j + tag.len());
        let ps = s.subrange(i, i + p.len());
        if j < i && i < j + tag.len() {
            assert(ts[i - j] == s[i]);
            assert(ps[0] == s[i]);
            if i - j == tag.len() - 1 {
                assert(tag[i - j] == '}');
            } else {
                assert(tag[i - j] == '{');
            }
        } else if i < j && j < i + p.len() {
            assert(ts[0] == s[j]);
            assert(ps[j - i] == s[j]);
            if j - i == p.len() - 1 {
                assert(p[j - i] == '}');
            } else {
                assert(p[j - i] == '{');
            }
        } else if j == i {
            if tag.len() < p.len() {
                assert(ts[tag.len() - 1] == s[i + tag.len() - 1]);
                assert(ps[tag.len() - 1] == s[i + tag.len() - 1]);
                assert(p[tag.len() - 1] == '}');
            } else if tag.len() > p.len() {
                assert(ts[p.len() - 1] == s[i + p.len() - 1]);
                assert(ps[p.len() - 1] == s[i + p.len() - 1]);
                assert(tag[p.len() - 1] == '}');
            } else {
                assert(tag == p);
            }
        }
    }
    lemma_replace_keeps(s, tag, to, p, i);
}

/// Every output template names the file extension: either the template's own
/// `{FILE_EXTENSION}` or `{EXT}` tag becomes `%(ext)s`, or `.%(ext)s` is added.
#[verifier::rlimit(40)]
pub proof fn law_template_names_extension(raw: Seq<char>, include_playlist: bool)
    ensures
        contains(output_template_spec(raw, include_playlist), "%(ext)"@),
{
    reveal_strlit("{TITLE}");
    reveal_strlit("{FULL_TITLE}");
    reveal_strlit("{FILE_EXTENSION}");
    reveal_strlit("{EXT}");
    reveal_strlit("{UPLOADER}");
    reveal_strlit("{UPLOADER_ID}");
    reveal_strlit("{ID}");
    reveal_strlit("{DESCRIPTION}");
    reveal_strlit("{PLAYLIST_INDEX}");
    reveal_strlit("%(ext)");
    reveal_strlit("%(ext)s");
    reveal_strlit(".%(ext)s");
    let source = template_source(raw, include_playlist);
    let p = "%(ext)"@;
    let s1 = replace_all(source, "{TITLE}"@, "%(title)s"@);
    let s2 = replace_all(s1, "{FULL_TITLE}"@, "%(fulltitle)s"@);
    let s3 = replace_all(s2, "{FILE_EXTENSION}"@, "%(ext)s"@);
    let s4 = replace_all(s3, "{EXT}"@, "%(ext)s"@);
    let s5 = replace_all(s4, "{UPLOADER}"@, "%(uploader)s"@);
    let s6 = replace_all(s5, "{UPLOADER_ID}"@, "%(uploader_id)s"@);
    let s7 = replace_all(s6, "{ID}"@, "%(id)s"@);
    let s8 = replace_all(s7, "{DESCRIPTION}"@, "%(description).160s"@);
    let t = replace_all(s8, "{PLAYLIST_INDEX}"@, "%(playlist_index)03d"@);
    assert(t == expand_tags(source));
    assert(tag_like("{TITLE}"@));
    assert(tag_like("{FULL_TITLE}"@));
    assert(tag_like("{FILE_EXTENSION}"@));
    assert(tag_like("{EXT}"@));
    assert(tag_like("{UPLOADER}"@));
    assert(tag_like("{UPLOADER_ID}"@));
    assert(tag_like("{ID}"@));
    assert(tag_like("{DESCRIPTION}"@));
    assert(tag_like("{PLAYLIST_INDEX}"@));
    assert(percent_free("{EXT}"@));
    assert(percent_free("{UPLOADER}"@));
    assert(percent_free("{UPLOADER_ID}"@));
    assert(percent_free("{ID}"@));
    assert(percent_free("{DESCRIPTION}"@));
    assert(percent_free("{PLAYLIST_INDEX}"@));
    assert(field_like(p));
    assert("%(ext)s"@.subrange(0, 6) =~= p);
    if contains(source, "{FILE_EXTENSION}"@) || contains(source, "{EXT}"@) {
        if contains(source, "{FILE_EXTENSION}"@) {
            assert("{TITLE}"@ != "{FILE_EXTENSION}"@);
            assert("{FULL_TITLE}"@ != "{FILE_EXTENSION}"@);
            lemma_tag_survives(source, "{TITLE}"@, "%(title)s"@, "{FILE_EXTENSION}"@);
            lemma_tag_survives(s1, "{FULL_TITLE}"@, "%(fulltitle)s"@, "{FILE_EXTENSION}"@);
            lemma_replace_shows(s2, "{FILE_EXTENSION}"@, "%(ext)s"@);
            let w = choose|k: int| occurs_at(s3, "%(ext)s"@, k);
            assert(s3.subrange(w, w + 6) == "%(ext)s"@.subrange(0, 6));
            assert(occurs_at(s3, p, w));
            lemma_field_survives(s3, "{EXT}"@, "%(ext)s"@, p);
        } else {
            assert("{TITLE}"@ != "{EXT}"@);
            assert("{FULL_TITLE}"@ != "{EXT}"@);
            assert("{FILE_EXTENSION}"@ != "{EXT}"@);
            lemma_tag_survives(source, "{TITLE}"@, "%(title)s"@, "{EXT}"@);
            lemma_tag_survives(s1, "{FULL_TITLE}"@, "%(fulltitle)s"@, "{EXT}"@);
            lemma_tag_survives(s2, "{FILE_EXTENSION}"@, "%(ext)s"@, "{EXT}"@);
            lemma_replace_shows(s3, "{EXT}"@, "%(ext)s"@);
            let w = choose|k: int| occurs_at(s4, "%(ext)s"@, k);
            assert(s4.subrange(w, w + 6) == "%(ext)s"@.subrange(0, 6));
            assert(occurs_at(s4, p, w));
        }
        lemma_field_survives(s4, "{UPLOADER}"@, "%(uploader)s"@, p);
        lemma_field_survives(s5, "{UPLOADER_ID}"@, "%(uploader_id)s"@, p);
        lemma_field_survives(s6, "{ID}"@, "%(id)s"@, p);
        lemma_field_survives(s7, "{DESCRIPTION}"@, "%(description).160s"@, p);
        lemma_field_survives(s8, "{PLAYLIST_INDEX}"@, "%(playlist_index)03d"@, p);
    } else if !contains(t, p) {
        let tail = ".%(ext)s"@;
        assert(tail.subrange(1, 7) == p);
        assert(occurs_at(tail, p, 1));
        lemma_contains_after(t, tail, p);
    }
}


/// A tag that no replacement value can recreate: it begins with `{`, ends with
/// `}` and holds no `%`.
pub open spec fn clean_tag(p: Seq<char>) -> bool {
    &&& p.len() >= 2
    &&& p[0] == '{'
    &&& p.last() == '}'
    &&& percent_free(p)
}

/// A replacement value: it begins with `%`, holds no brace and does not end in
/// white space.
pub open spec fn clean_value(t: Seq<char>) -> bool {
    &&& t.len() > 0
    &&& t[0] == '%'
    &&& !is_white_space(t.last())
    &&& forall|k: int| 0 <= k < t.len() ==> #[trigger] t[k] != '{' && t[k] != '}'
}

/// The tags that `expand_tags` replaces, in order.
pub open spec fn template_tags() -> Seq<Seq<char>> {
    seq![
        "{TITLE}"@,
        "{FULL_TITLE}"@,
        "{FILE_EXTENSION}"@,
        "{EXT}"@,
        "{UPLOADER}"@,
        "{UPLOADER_ID}"@,
        "{ID}"@,
        "{DESCRIPTION}"@,
        "{PLAYLIST_INDEX}"@,
    ]
}

/// Text that holds none of the template tags.
pub open spec fn tag_free(s: Seq<char>) -> bool {
    forall|i: int| 0 <= i < template_tags().len() ==> !contains(s, #[trigger] template_tags()[i])
}

/// Text that is not empty and neither begins nor ends with white space.
pub open spec fn trimmed_nonempty(s: Seq<char>) -> bool {
    s.len() > 0 && !is_white_space(s[0]) && !is_white_space(s.last())
}

/// Replacing a pattern that does not occur changes nothing.
proof fn lemma_replace_absent(s: Seq<char>, from: Seq<char>, to: Seq<char>)
    requires
        from.len() > 0,
        !contains(s, from),
    ensures
        replace_all(s, from, to) == s,
    decreases s.len(),
{
    if s.len() > 0 {
        assert(!occurs_at(s, from, 0));
        let d = s.drop_first();
        assert forall|j: int| !occurs_at(d, from, j) by {
            if occurs_at(d, from, j) {
                assert(s.subrange(j + 1, j + 1 + from.len()) == d.subrange(j, j + from.len()));
                assert(occurs_at(s, from, j + 1));
            }
        }
        lemma_replace_absent(d, from, to);
        assert(seq![s[0]] + d == s);
    }
}

/// Where the start of a replacement's result holds no `%`, no value beginning
/// with `%` was put there: that start is the start of the text itself.
proof fn lemma_replace_prefix(s: Seq<char>, from: Seq<char>, to: Seq<char>, m: int)
    requires
        from.len() > 0,
        to.len() > 0,
        to[0] == '%',
        0 <= m <= replace_all(s, from, to).len(),
        forall|i: int| 0 <= i < m ==> #[trigger] replace_all(s, from, to)[i] != '%',
    ensures
        m <= s.len(),
        replace_all(s, from, to).take(m) == s.take(m),
    decreases s.len(),
{
    let r = replace_all(s, from, to);
    if s.len() == 0 {
    } else if occurs_at(s, from, 0) {
        let rest = replace_all(s.skip(from.len() as int), from, to);
        assert(r == to + rest);
        if m > 0 {
            assert(r[0] == to[0]);
        }
        assert(r.take(m) == s.take(m));
    } else {
        let d = s.drop_first();
        let rd = replace_all(d, from, to);
        assert(r == seq![s[0]] + rd);
        if m > 0 {
            assert forall|i: int| 0 <= i < m - 1 implies #[trigger] rd[i] != '%' by {
                assert(rd[i] == r[i + 1]);
            }
            lemma_replace_prefix(d, from, to, m - 1);
            assert(r.take(m) == seq![s[0]] + rd.take(m - 1));
            assert(s.take(m) == seq![s[0]] + d.take(m - 1));
        } else {
            assert(r.take(m) == s.take(m));
        }
    }
}

/// Replacing `from` by a clean value leaves no occurrence of `from`, and adds
/// no occurrence of a clean tag that was not there.
proof fn lemma_replace_clears(s: Seq<char>, from: Seq<char>, to: Seq<char>, p: Seq<char>)
    requires
        from.len() > 0,
        clean_value(to),
        clean_tag(p),
        p == from || !contains(s, p),
    ensures
        !contains(replace_all(s, from, to), p),
    decreases s.len(),
{
    let r = replace_all(s, from, to);
    let pl = p.len() as int;
    if s.len() == 0 {
        assert forall|k: int| !occurs_at(r, p, k) by {}
    } else if occurs_at(s, from, 0) {
        let t = s.skip(from.len() as int);
        let rt = replace_all(t, from, to);
        assert(r == to + rt);
        if p != from {
            assert forall|j: int| !occurs_at(t, p, j) by {
                if occurs_at(t, p, j) {
                    assert(s.subrange(j + from.len(), j + from.len() + pl) == t.subrange(j, j + pl));
                    assert(occurs_at(s, p, j + from.len()));
                }
            }
        }
        lemma_replace_clears(t, from, to, p);
        assert forall|k: int| !occurs_at(r, p, k) by {
            if occurs_at(r, p, k) {
                let tl = to.len() as int;
                if k < tl {
                    assert(r.subrange(k, k + pl)[0] == r[k]);
                    assert(r[k] == to[k]);
                } else {
                    assert(rt.subrange(k - tl, k - tl + pl) == r.subrange(k, k + pl));
                    assert(occurs_at(rt, p, k - tl));
                }
            }
        }
    } else {
        let d = s.drop_first();
        let rd = replace_all(d, from, to);
        assert(r == seq![s[0]] + rd);
        if p != from {
            assert forall|j: int| !occurs_at(d, p, j) by {
                if occurs_at(d, p, j) {
                    assert(s.subrange(j + 1, j + 1 + pl) == d.subrange(j, j + pl));
                    assert(occurs_at(s, p, j + 1));
                }
            }
        }
        lemma_replace_clears(d, from, to, p);
        assert forall|k: int| !occurs_at(r, p, k) by {
            if occurs_at(r, p, k) {
                if k >= 1 {
                    assert(rd.subrange(k - 1, k - 1 + pl) == r.subrange(k, k + pl));
                    assert(occurs_at(rd, p, k - 1));
                } else {
                    assert forall|i: int| 0 <= i < pl - 1 implies #[trigger] rd[i] != '%' by {
                        assert(rd[i] == r[i + 1]);
                        assert(r.subrange(0, pl)[i + 1] == p[i + 1]);
                    }
                    lemma_replace_prefix(d, from, to, pl - 1);
                    assert(s.subrange(0, pl) =~= p) by {
                        assert forall|i: int| 0 <= i < pl implies s.subrange(0, pl)[i] == p[i] by {
                            assert(r.subrange(0, pl)[i] == p[i]);
                            if i > 0 {
                                assert(rd.take(pl - 1)[i - 1] == d.take(pl - 1)[i - 1]);
                            }
                        }
                    }
                    assert(occurs_at(s, p, 0));
                }
            }
        }
    }
}

/// A replacement by a clean value keeps text non-empty and free of white space
/// at both ends.
proof fn lemma_replace_ends(s: Seq<char>, from: Seq<char>, to: Seq<char>)
    requires
        from.len() > 0,
        clean_value(to),
        s.len() > 0,
    ensures
        replace_all(s, from, to).len() > 0,
        replace_all(s, from, to)[0] == s[0] || replace_all(s, from, to)[0] == to[0],
        replace_all(s, from, to).last() == s.last() || replace_all(s, from, to).last()
            == to.last(),
    decreases s.len(),
{
    let r = replace_all(s, from, to);
    if occurs_at(s, from, 0) {
        let t = s.skip(from.len() as int);
        let rt = replace_all(t, from, to);
        assert(r == to + rt);
        if t.len() > 0 {
            lemma_replace_ends(t, from, to);
            assert(t.last() == s.last());
        } else {
            assert(rt.len() == 0);
        }
    } else {
        let d = s.drop_first();
        let rd = replace_all(d, from, to);
        assert(r == seq![s[0]] + rd);
        if d.len() > 0 {
            lemma_replace_ends(d, from, to);
            assert(d.last() == s.last());
        } else {
            assert(rd.len() == 0);
        }
    }
}

proof fn lemma_clear_step(s: Seq<char>, from: Seq<char>, to: Seq<char>, done: Seq<Seq<char>>)
    requires
        clean_tag(from),
        clean_value(to),
        forall|i: int| 0 <= i < done.len() ==> clean_tag(#[trigger] done[i]) && !contains(s, done[i]),
        trimmed_nonempty(s),
    ensures
        forall|i: int|
            0 <= i < done.push(from).len() ==> !contains(
                replace_all(s, from, to),
                #[trigger] done.push(from)[i],
            ),
        trimmed_nonempty(replace_all(s, from, to)),
{
    assert forall|i: int| 0 <= i < done.push(from).len() implies !contains(
        replace_all(s, from, to),
        #[trigger] done.push(from)[i],
    ) by {
        if i < done.len() {
            assert(done.push(from)[i] == done[i]);
            lemma_replace_clears(s, from, to, done[i]);
        } else {
            lemma_replace_clears(s, from, to, from);
        }
    }
    lemma_replace_ends(s, from, to);
}

/// Expanding the tags of trimmed text leaves trimmed text with no tag in it.
#[verifier::rlimit(40)]
proof fn lemma_expand_clean(s: Seq<char>)
    requires
        trimmed_nonempty(s),
    ensures
        tag_free(expand_tags(s)),
        trimmed_nonempty(expand_tags(s)),
{
    reveal_strlit("{TITLE}");
    reveal_strlit("{FULL_TITLE}");
    reveal_strlit("{FILE_EXTENSION}");
    reveal_strlit("{EXT}");
    reveal_strlit("{UPLOADER}");
    reveal_strlit("{UPLOADER_ID}");
    reveal_strlit("{ID}");
    reveal_strlit("{DESCRIPTION}");
    reveal_strlit("{PLAYLIST_INDEX}");
    reveal_strlit("%(title)s");
    reveal_strlit("%(fulltitle)s");
    reveal_strlit("%(ext)s");
    reveal_strlit("%(uploader)s");
    reveal_strlit("%(uploader_id)s");
    reveal_strlit("%(id)s");
    reveal_strlit("%(description).160s");
    reveal_strlit("%(playlist_index)03d");
    let tags = template_tags();
    assert forall|i: int| 0 <= i < tags.len() implies clean_tag(#[trigger] tags[i]) by {}
    assert(clean_value("%(title)s"@));
    assert(clean_value("%(fulltitle)s"@));
    assert(clean_value("%(ext)s"@));
    assert(clean_value("%(uploader)s"@));
    assert(clean_value("%(uploader_id)s"@));
    assert(clean_value("%(id)s"@));
    assert(clean_value("%(description).160s"@));
    assert(clean_value("%(playlist_index)03d"@));
    let s1 = replace_all(s, "{TITLE}"@, "%(title)s"@);
    let s2 = replace_all(s1, "{FULL_TITLE}"@, "%(fulltitle)s"@);
    let s3 = replace_all(s2, "{FILE_EXTENSION}"@, "%(ext)s"@);
    let s4 = replace_all(s3, "{EXT}"@, "%(ext)s"@);
    let s5 = replace_all(s4, "{UPLOADER}"@, "%(uploader)s"@);
    let s6 = replace_all(s5, "{UPLOADER_ID}"@, "%(uploader_id)s"@);
    let s7 = replace_all(s6, "{ID}"@, "%(id)s"@);
    let s8 = replace_all(s7, "{DESCRIPTION}"@, "%(description).160s"@);
    let s9 = replace_all(s8, "{PLAYLIST_INDEX}"@, "%(playlist_index)03d"@);
    assert(s9 == expand_tags(s));
    lemma_clear_step(s, tags[0], "%(title)s"@, tags.take(0));
    assert(tags.take(0).push(tags[0]) == tags.take(1));
    lemma_clear_step(s1, tags[1], "%(fulltitle)s"@, tags.take(1));
    assert(tags.take(1).push(tags[1]) == tags.take(2));
    lemma_clear_step(s2, tags[2], "%(ext)s"@, tags.take(2));
    assert(tags.take(2).push(tags[2]) == tags.take(3));
    lemma_clear_step(s3, tags[3], "%(ext)s"@, tags.take(3));
    assert(tags.take(3).push(tags[3]) == tags.take(4));
    lemma_clear_step(s4, tags[4], "%(uploader)s"@, tags.take(4));
    assert(tags.take(4).push(tags[4]) == tags.take(5));
    lemma_clear_step(s5, tags[5], "%(uploader_id)s"@, tags.take(5));
    assert(tags.take(5).push(tags[5]) == tags.take(6));
    lemma_clear_step(s6, tags[6], "%(id)s"@, tags.take(6));
    assert(tags.take(6).push(tags[6]) == tags.take(7));
    lemma_clear_step(s7, tags[7], "%(description).160s"@, tags.take(7));
    assert(tags.take(7).push(tags[7]) == tags.take(8));
    lemma_clear_step(s8, tags[8], "%(playlist_index)03d"@, tags.take(8));
    assert(tags.take(8).push(tags[8]) == tags);
}

/// Expanding the tags of text that holds none changes nothing.
#[verifier::rlimit(40)]
proof fn lemma_expand_identity(s: Seq<char>)
    requires
        tag_free(s),
    ensures
        expand_tags(s) == s,
{
    reveal_strlit("{TITLE}");
    reveal_strlit("{FULL_TITLE}");
    reveal_strlit("{FILE_EXTENSION}");
    reveal_strlit("{EXT}");
    reveal_strlit("{UPLOADER}");
    reveal_strlit("{UPLOADER_ID}");
    reveal_strlit("{ID}");
    reveal_strlit("{DESCRIPTION}");
    reveal_strlit("{PLAYLIST_INDEX}");
    let tags = template_tags();
    assert(!contains(s, tags[0]));
    assert(!contains(s, tags[1]));
    assert(!contains(s, tags[2]));
    assert(!contains(s, tags[3]));
    assert(!contains(s, tags[4]));
    assert(!contains(s, tags[5]));
    assert(!contains(s, tags[6]));
    assert(!contains(s, tags[7]));
    assert(!contains(s, tags[8]));
    lemma_replace_absent(s, "{TITLE}"@, "%(title)s"@);
    lemma_replace_absent(s, "{FULL_TITLE}"@, "%(fulltitle)s"@);
    lemma_replace_absent(s, "{FILE_EXTENSION}"@, "%(ext)s"@);
    lemma_replace_absent(s, "{EXT}"@, "%(ext)s"@);
    lemma_replace_absent(s, "{UPLOADER}"@, "%(uploader)s"@);
    lemma_replace_absent(s, "{UPLOADER_ID}"@, "%(uploader_id)s"@);
    lemma_replace_absent(s, "{ID}"@, "%(id)s"@);
    lemma_replace_absent(s, "{DESCRIPTION}"@, "%(description).160s"@);
    lemma_replace_absent(s, "{PLAYLIST_INDEX}"@, "%(playlist_index)03d"@);
}

/// A tag found in text followed by brace-free text lies in the first part.
proof fn lemma_tag_in_front(a: Seq<char>, b: Seq<char>, p: Seq<char>)
    requires
        clean_tag(p),
        forall|k: int| 0 <= k < b.len() ==> #[trigger] b[k] != '}',
        contains(a + b, p),
    ensures
        contains(a, p),
{
    let w = choose|k: int| occurs_at(a + b, p, k);
    let pl = p.len() as int;
    assert((a + b).subrange(w, w + pl)[pl - 1] == (a + b)[w + pl - 1]);
    if w + pl > a.len() {
        assert((a + b)[w + pl - 1] == b[w + pl - 1 - a.len()]);
    }
    assert(a.subrange(w, w + pl) == (a + b).subrange(w, w + pl));
    assert(occurs_at(a, p, w));
}

/// An output template is already settled: building the output template again
/// from it, with or without a playlist, gives it back unchanged.
#[verifier::rlimit(40)]
pub proof fn law_template_settled(raw: Seq<char>, include_playlist: bool, again: bool)
    ensures
        output_template_spec(output_template_spec(raw, include_playlist), again)
            == output_template_spec(raw, include_playlist),
{
    reveal_strlit("{PLAYLIST_INDEX} - {TITLE}.{FILE_EXTENSION}");
    reveal_strlit("{TITLE}.{FILE_EXTENSION}");
    reveal_strlit(".%(ext)s");
    let source = template_source(raw, include_playlist);
    lemma_trim_ends(raw);
    assert(trimmed_nonempty(source));
    let t = expand_tags(source);
    lemma_expand_clean(source);
    let out = output_template_spec(raw, include_playlist);
    law_template_names_extension(raw, include_playlist);
    if out != t {
        let tail = ".%(ext)s"@;
        assert(out == t + tail);
        assert forall|k: int| 0 <= k < tail.len() implies #[trigger] tail[k] != '}' by {}
        assert forall|i: int| 0 <= i < template_tags().len() implies !contains(
            out,
            #[trigger] template_tags()[i],
        ) by {
            reveal_strlit("{TITLE}");
            reveal_strlit("{FULL_TITLE}");
            reveal_strlit("{FILE_EXTENSION}");
            reveal_strlit("{EXT}");
            reveal_strlit("{UPLOADER}");
            reveal_strlit("{UPLOADER_ID}");
            reveal_strlit("{ID}");
            reveal_strlit("{DESCRIPTION}");
            reveal_strlit("{PLAYLIST_INDEX}");
            if contains(out, template_tags()[i]) {
                lemma_tag_in_front(t, tail, template_tags()[i]);
            }
        }
        assert(out[0] == t[0]);
        assert(out.last() == tail.last());
    }
    assert(tag_free(out));
    assert(trimmed_nonempty(out));
    lemma_trim_keeps(out);
    assert(template_source(out, again) == out);
    lemma_expand_identity(out);
}


/// A capped quality caps the video height at its own number: for 2160, 1440,
/// 1080, 720 and 480, whatever the container, the selector holds
/// `[height<=Q]` for that quality `Q`.
pub proof fn law_format_selector_caps_height(quality: Seq<char>, container: Seq<char>)
    requires
        quality == "2160"@ || quality == "1440"@ || quality == "1080"@ || quality == "720"@
            || quality == "480"@,
    ensures
        contains(format_selector_spec(quality, container), "[height<="@ + quality + "]"@),
{
    reveal_strlit("2160");
    reveal_strlit("1440");
    reveal_strlit("1080");
    reveal_strlit("720");
    reveal_strlit("480");
    reveal_strlit("small");
    reveal_strlit("bv*");
    let cap = "[height<="@ + quality + "]"@;
    assert(quality != "small"@);
    assert(height_filter(quality) == cap);
    let sel = format_selector_spec(quality, container);
    assert(sel.len() >= 3 + cap.len());
    assert(sel.subrange(3, 3 + cap.len() as int) =~= cap);
    assert(occurs_at(sel, cap, 3));
}

} // verus!
