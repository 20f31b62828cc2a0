//! Reading what yt-dlp and other tools print, and reporting on a finished run.
use vstd::prelude::*;
use vstd::utf8::{decode_utf8, valid_utf8};
use crate::text::{
    chars_of, decimal, decimal_chars, push_all, signed_decimal, signed_decimal_chars, string_of,
    trim, trim_chars,
};

verus! {

/// What `String::from_utf8_lossy` makes of `bytes`: invalid sequences become
/// U+FFFD.
pub uninterp spec fn lossy_text(bytes: Seq<u8>) -> Seq<char>;

/// `String::from_utf8_lossy`. Believed: the result is `lossy_text(bytes)`, and
/// it is the plain decoding when `bytes` is valid UTF-8 (as std documents).
#[verifier::external_body]
pub(crate) fn utf8_lossy(bytes: &[u8]) -> (r: String)
    ensures
        r@ == lossy_text(bytes@),
        valid_utf8(bytes@) ==> r@ == decode_utf8(bytes@),
{
    String::from_utf8_lossy(bytes).into_owned()
}

/// The message for a failed command: `prefix: DETAIL`, where DETAIL is the
/// trimmed standard error, or else the trimmed standard output, when not blank.
pub open spec fn command_error_spec(prefix: Seq<char>, stderr: Seq<u8>, stdout: Seq<u8>) -> Seq<
    char,
> {
    let e = trim(lossy_text(stderr));
    let o = trim(lossy_text(stdout));
    if e.len() > 0 {
        prefix + ": "@ + e
    } else if o.len() > 0 {
        prefix + ": "@ + o
    } else {
        prefix
    }
}

/// The message for a failed command, with what it printed.
pub fn command_error(prefix: &str, stderr: &[u8], stdout: &[u8]) -> (r: String)
    ensures
        r@ == command_error_spec(prefix@, stderr@, stdout@),
{
    let es = utf8_lossy(stderr);
    let ec = chars_of(es.as_str());
    let e = trim_chars(&ec);
    let os = utf8_lossy(stdout);
    let oc = chars_of(os.as_str());
    let o = trim_chars(&oc);
    if e.len() > 0 {
        let mut v = chars_of(prefix);
        let sep = chars_of(": ");
        push_all(&mut v, &sep);
        push_all(&mut v, &e);
        string_of(&v)
    } else if o.len() > 0 {
        let mut v = chars_of(prefix);
        let sep = chars_of(": ");
        push_all(&mut v, &sep);
        push_all(&mut v, &o);
        string_of(&v)
    } else {
        String::from_str(prefix)
    }
}

/// The last `max_lines` lines (all of them when there are no more).
pub open spec fn tail_spec<T>(lines: Seq<T>, max_lines: nat) -> Seq<T> {
    if lines.len() <= max_lines {
        lines
    } else {
        lines.skip(lines.len() - max_lines)
    }
}

/// Keeps the last `max_lines` lines.
pub fn trim_tail(lines: Vec<String>, max_lines: usize) -> (r: Vec<String>)
    ensures
        r@ == tail_spec(lines@, max_lines as nat),
{
    let mut lines = lines;
    if lines.len() <= max_lines {
        lines
    } else {
        let ghost all = lines@;
        let at = lines.len() - max_lines;
        let tail = lines.split_off(at);
        assert(tail@ == all.skip(at as int));
        tail
    }
}

// ---------------------------------------------------------------------------
// Progress lines
// ---------------------------------------------------------------------------

/// The characters of `s` before its first `c`, when it has one.
pub open spec fn before_first(s: Seq<char>, c: char) -> Option<Seq<char>>
    decreases s.len(),
{
    if s.len() == 0 {
        None
    } else if s[0] == c {
        Some(Seq::empty())
    } else {
        match before_first(s.drop_first(), c) {
            Some(p) => Some(seq![s[0]] + p),
            None => None,
        }
    }
}

/// An ASCII digit or a dot.
pub open spec fn numeric_char(c: char) -> bool {
    ('0' <= c && c <= '9') || c == '.'
}

/// The longest run of digits and dots that ends `s`.
pub open spec fn numeric_suffix(s: Seq<char>) -> Seq<char>
    decreases s.len(),
{
    if s.len() > 0 && numeric_char(s.last()) {
        numeric_suffix(s.drop_last()).push(s.last())
    } else {
        Seq::empty()
    }
}

/// The text of the percentage a progress line reports: the digits and dots just
/// before its first `%`.
pub open spec fn progress_text_spec(line: Seq<char>) -> Option<Seq<char>> {
    match before_first(line, '%') {
        Some(p) => Some(numeric_suffix(p)),
        None => None,
    }
}

/// The byte offset at which the percentage is cut out is not a character
/// boundary: the character before the digits is not ASCII, and slicing there
/// panics.
pub open spec fn progress_cut_panics(line: Seq<char>) -> bool {
    match before_first(line, '%') {
        Some(p) => {
            let k = p.len() - numeric_suffix(p).len() - 1;
            k >= 0 && (p[k] as u32) >= 0x80
        },
        None => false,
    }
}

proof fn lemma_numeric_suffix(s: Seq<char>)
    ensures
        numeric_suffix(s).len() <= s.len(),
        numeric_suffix(s) == s.skip(s.len() - numeric_suffix(s).len()),
        numeric_suffix(s).len() < s.len() ==> !numeric_char(
            s[s.len() - numeric_suffix(s).len() - 1],
        ),
    decreases s.len(),
{
    if s.len() > 0 && numeric_char(s.last()) {
        lemma_numeric_suffix(s.drop_last());
        let k = numeric_suffix(s.drop_last()).len();
        assert(s.drop_last().skip(s.len() - 1 - k).push(s.last()) == s.skip(s.len() - 1 - k));
        if k + 1 < s.len() {
            assert(s[s.len() - (k + 1) - 1] == s.drop_last()[s.len() - 1 - k - 1]);
        }
    } else {
        assert(s.skip(s.len() as int) == Seq::<char>::empty());
    }
}

proof fn lemma_before_first(s: Seq<char>, c: char, i: int)
    requires
        0 <= i <= s.len(),
        forall|j: int| 0 <= j < i ==> s[j] != c,
    ensures
        i < s.len() && s[i] == c ==> before_first(s, c) == Some(s.take(i)),
        i == s.len() ==> before_first(s, c) is None,
    decreases i,
{
    if i > 0 {
        lemma_before_first(s.drop_first(), c, i - 1);
        if i < s.len() && s[i] == c {
            assert(seq![s[0]] + s.drop_first().take(i - 1) == s.take(i));
        }
    } else if s.len() > 0 {
        assert(s.take(0) == Seq::<char>::empty());
    }
}

fn find_char(s: &[char], c: char) -> (r: Option<usize>)
    ensures
        r matches Some(i) ==> i < s@.len() && s@[i as int] == c && before_first(s@, c) == Some(
            s@.take(i as int),
        ),
        r is None ==> before_first(s@, c) is None,
{
    for i in 0..s.len()
        invariant
            forall|j: int| 0 <= j < i ==> s@[j] != c,
    {
        if s[i] == c {
            proof {
                lemma_before_first(s@, c, i as int);
            }
            return Some(i);
        }
    }
    proof {
        lemma_before_first(s@, c, s@.len() as int);
    }
    None
}

fn numeric_char_exec(c: char) -> (r: bool)
    ensures
        r == numeric_char(c),
{
    ('0' <= c && c <= '9') || c == '.'
}

/// Where the digits before `end` start.
fn numeric_start(s: &[char], end: usize) -> (r: usize)
    requires
        end <= s@.len(),
    ensures
        r <= end,
        numeric_suffix(s@.take(end as int)).len() == end - r,
{
    let mut start = end;
    while start > 0 && numeric_char_exec(s[start - 1])
        invariant
            start <= end <= s@.len(),
            forall|j: int| start <= j < end ==> numeric_char(#[trigger] s@[j]),
        decreases start,
    {
        start = start - 1;
    }
    proof {
        let p = s@.take(end as int);
        lemma_numeric_suffix(p);
        let k = numeric_suffix(p).len();
        assert(numeric_suffix(p) == p.skip(p.len() - k));
        // every character from `start` on is numeric, and the one before is not
        if (k as int) < end - start {
            assert(numeric_char(p[p.len() - k - 1]));
            assert(false);
        }
        if (k as int) > end - start {
            assert(start > 0);
            assert(p.skip(p.len() - k)[k - (end - start) - 1] == p[start - 1]);
            assert(numeric_char(numeric_suffix(p)[k - (end - start) - 1])) by {
                lemma_all_numeric(p);
            }
            assert(false);
        }
    }
    start
}

proof fn lemma_all_numeric(s: Seq<char>)
    ensures
        forall|i: int| 0 <= i < numeric_suffix(s).len() ==> numeric_char(#[trigger] numeric_suffix(s)[i]),
    decreases s.len(),
{
    if s.len() > 0 && numeric_char(s.last()) {
        lemma_all_numeric(s.drop_last());
        let p = numeric_suffix(s.drop_last());
        assert forall|i: int| 0 <= i < numeric_suffix(s).len() implies numeric_char(
            #[trigger] numeric_suffix(s)[i],
        ) by {
            if i < p.len() {
                assert(numeric_suffix(s)[i] == p[i]);
            }
        }
    }
}

/// Whether cutting the percentage out of `line` would panic.
pub fn progress_cut_would_panic(line: &str) -> (r: bool)
    ensures
        r == progress_cut_panics(line@),
{
    let s = chars_of(line);
    match find_char(&s, '%') {
        Some(p) => {
            let start = numeric_start(&s, p);
            if start == 0 {
                false
            } else {
                proof {
                    assert(s@.take(p as int)[start - 1] == s@[start - 1]);
                }
                (s[start - 1] as u32) >= 0x80
            }
        },
        None => false,
    }
}

/// The text of the percentage a progress line reports.
pub fn progress_text(line: &str) -> (r: Option<String>)
    requires
        !progress_cut_panics(line@),
    ensures
        r is Some <==> progress_text_spec(line@) is Some,
        r matches Some(t) ==> progress_text_spec(line@) == Some(t@),
{
    let s = chars_of(line);
    match find_char(&s, '%') {
        Some(p) => {
            let start = numeric_start(&s, p);
            let mut out: Vec<char> = Vec::new();
            let mut i = start;
            while i < p
                invariant
                    start <= i <= p < s@.len(),
                    out@ == s@.subrange(start as int, i as int),
                decreases p - i,
            {
                out.push(s[i]);
                assert(s@.subrange(start as int, i + 1) == s@.subrange(start as int, i as int).push(
                    s@[i as int],
                ));
                i = i + 1;
            }
            proof {
                let q = s@.take(p as int);
                lemma_numeric_suffix(q);
                assert(numeric_suffix(q) == q.skip(start as int));
                assert(q.skip(start as int) == s@.subrange(start as int, p as int));
            }
            Some(string_of(&out))
        },
        None => None,
    }
}

// ---------------------------------------------------------------------------
// Tool versions
// ---------------------------------------------------------------------------

/// The characters of `s` before its first line feed (all of `s` when it has none).
pub open spec fn first_line(s: Seq<char>) -> Seq<char> {
    match before_first(s, '\n') {
        Some(p) => p,
        None => s,
    }
}

/// The version a tool reports: the first line of its trimmed output, trimmed,
/// when not blank.
pub open spec fn version_line_spec(stdout: Seq<u8>) -> Option<Seq<char>> {
    let text = trim(lossy_text(stdout));
    let line = trim(first_line(text));
    if text.len() > 0 && line.len() > 0 {
        Some(line)
    } else {
        None
    }
}

/// The version line of a tool's `--version` output.
pub fn first_version_line(stdout: &[u8]) -> (r: Option<String>)
    ensures
        r is Some <==> version_line_spec(stdout@) is Some,
        r matches Some(v) ==> version_line_spec(stdout@) == Some(v@),
{
    let raw = utf8_lossy(stdout);
    let rc = chars_of(raw.as_str());
    let text = trim_chars(&rc);
    if text.len() == 0 {
        return None;
    }
    let first = match find_char(&text, '\n') {
        Some(i) => {
            let mut v: Vec<char> = Vec::new();
            for j in 0..i
                invariant
                    i < text@.len(),
                    v@ == text@.take(j as int),
            {
                v.push(text[j]);
                assert(text@.take(j + 1) == text@.take(j as int).push(text@[j as int]));
            }
            v
        },
        None => text.clone(),
    };
    let line = trim_chars(&first);
    if line.len() > 0 {
        Some(string_of(&line))
    } else {
        None
    }
}

// ---------------------------------------------------------------------------
// A finished download
// ---------------------------------------------------------------------------

/// How many lines of output a finished download keeps.
pub open spec fn kept_output_lines() -> nat {
    240
}

/// The outcome of a download run.
pub struct DownloadResult {
    pub success: bool,
    pub code: Option<i32>,
    pub output_tail: Vec<String>,
}

/// The outcome of a run: its exit status and the last 240 lines it printed.
pub fn download_result(success: bool, code: Option<i32>, lines: Vec<String>) -> (r: DownloadResult)
    ensures
        r.success == success,
        r.code == code,
        r.output_tail@ == tail_spec(lines@, kept_output_lines()),
{
    DownloadResult { success, code, output_tail: trim_tail(lines, 240) }
}

/// The message announcing a run with `arg_count` arguments.
pub fn started_message(arg_count: usize) -> (r: String)
    ensures
        r@ == "Starting yt-dlp with "@ + decimal(arg_count as nat) + " arguments"@,
{
    let mut v = chars_of("Starting yt-dlp with ");
    let d = decimal_chars(arg_count as u64);
    push_all(&mut v, &d);
    let tail = chars_of(" arguments");
    push_all(&mut v, &tail);
    string_of(&v)
}

/// The message reporting how many temporary files were removed.
pub fn cleaned_message(count: usize) -> (r: String)
    ensures
        r@ == "Cleaned "@ + decimal(count as nat) + " temporary download file(s)"@,
{
    let mut v = chars_of("Cleaned ");
    let d = decimal_chars(count as u64);
    push_all(&mut v, &d);
    let tail = chars_of(" temporary download file(s)");
    push_all(&mut v, &tail);
    string_of(&v)
}

/// How an optional exit code is written in the failure message (its `Debug` form).
pub open spec fn exit_code_text(code: Option<i32>) -> Seq<char> {
    match code {
        Some(c) => "Some("@ + signed_decimal(c as int) + ")"@,
        None => "None"@,
    }
}

/// The message for a run that failed.
pub fn exit_message(code: Option<i32>) -> (r: String)
    ensures
        r@ == "yt-dlp exited with code "@ + exit_code_text(code),
{
    let mut v = chars_of("yt-dlp exited with code ");
    match code {
        Some(c) => {
            let open = chars_of("Some(");
            push_all(&mut v, &open);
            let d = signed_decimal_chars(c as i64);
            push_all(&mut v, &d);
            v.push(')');
            proof {
                reveal_strlit(")");
                assert(")"@ == seq![')']);
            }
        },
        None => {
            let none = chars_of("None");
            push_all(&mut v, &none);
        },
    }
    string_of(&v)
}

/// The message for a completed run.
pub fn completed_message() -> (r: String)
    ensures
        r@ == "Download completed"@,
{
    String::from_str("Download completed")
}

} // verus!
