//! What a probe of a source reports, reduced to the fields the interface shows.
use vstd::prelude::*;
use crate::text::{chars_of, decimal, decimal_chars, push_all, string_of, trim, trim_chars};

verus! {

/// The fields of one format entry of yt-dlp's JSON, as read from it: each text
/// field is its string value (`None` when absent or not a string), `width`,
/// `height` and `filesize_approx` their unsigned-integer values, `fps_bits` the
/// bit pattern of its floating-point value, and `filesize` is `None` when the
/// key is absent and otherwise its unsigned-integer value, if it is one.
pub struct RawFormat {
    pub format_id: Option<String>,
    pub ext: Option<String>,
    pub resolution: Option<String>,
    pub width: Option<u64>,
    pub height: Option<u64>,
    pub fps_bits: Option<u64>,
    pub filesize: Option<Option<u64>>,
    pub filesize_approx: Option<u64>,
    pub vcodec: Option<String>,
    pub acodec: Option<String>,
}

/// The top-level fields of yt-dlp's JSON, read in the same way as [`RawFormat`]:
/// `entries_len` is the length of `entries` when it is an array, and `formats`
/// is `None` unless `formats` is an array.
pub struct RawSource {
    pub id: Option<String>,
    pub title: Option<String>,
    pub uploader: Option<String>,
    pub channel: Option<String>,
    pub webpage_url: Option<String>,
    pub extractor_key: Option<String>,
    pub extractor: Option<String>,
    pub duration_bits: Option<u64>,
    pub thumbnail: Option<String>,
    pub is_live: Option<bool>,
    pub entries_len: Option<usize>,
    pub playlist_count: Option<u64>,
    pub formats: Option<Vec<RawFormat>>,
}

/// One available format of a source, as the interface shows it.
pub struct MediaFormat {
    pub format_id: Option<String>,
    pub ext: Option<String>,
    pub resolution: Option<String>,
    pub fps_bits: Option<u64>,
    pub filesize: Option<u64>,
    pub vcodec: Option<String>,
    pub acodec: Option<String>,
}

/// What a probe reports about a source.
pub struct SourceMetadata {
    pub id: Option<String>,
    pub title: Option<String>,
    pub uploader: Option<String>,
    pub webpage_url: Option<String>,
    pub extractor: Option<String>,
    pub duration_bits: Option<u64>,
    pub thumbnail: Option<String>,
    pub is_live: bool,
    pub entry_count: Option<usize>,
    pub formats: Vec<MediaFormat>,
}

/// The most formats a probe reports.
pub open spec fn max_formats() -> nat {
    80
}

/// The text of an optional string.
pub open spec fn opt_text(o: Option<String>) -> Option<Seq<char>> {
    match o {
        Some(s) => Some(s@),
        None => None,
    }
}

/// A text field as shown: trimmed, and absent when blank.
pub open spec fn field_spec(raw: Option<String>) -> Option<Seq<char>> {
    match raw {
        Some(s) => if trim(s@).len() > 0 {
            Some(trim(s@))
        } else {
            None
        },
        None => None,
    }
}

/// The first of two optional values that is present.
pub open spec fn or_else<T>(a: Option<T>, b: Option<T>) -> Option<T> {
    match a {
        Some(x) => Some(x),
        None => b,
    }
}

/// The resolution given by width and height when the entry names none.
pub open spec fn size_resolution(width: Option<u64>, height: Option<u64>) -> Option<Seq<char>> {
    match (width, height) {
        (Some(w), Some(h)) => Some(decimal(w as nat) + seq!['x'] + decimal(h as nat)),
        (_, Some(h)) => Some(decimal(h as nat) + seq!['p']),
        _ => None,
    }
}

/// The file size shown: `filesize` when that key is present, else `filesize_approx`.
pub open spec fn filesize_spec(raw: RawFormat) -> Option<u64> {
    match raw.filesize {
        Some(v) => v,
        None => raw.filesize_approx,
    }
}

/// `m` is the shown form of the format entry `raw`.
pub open spec fn format_shown(raw: RawFormat, m: MediaFormat) -> bool {
    &&& opt_text(m.format_id) == field_spec(raw.format_id)
    &&& opt_text(m.ext) == field_spec(raw.ext)
    &&& opt_text(m.resolution) == or_else(
        field_spec(raw.resolution),
        size_resolution(raw.width, raw.height),
    )
    &&& m.fps_bits == raw.fps_bits
    &&& m.filesize == filesize_spec(raw)
    &&& opt_text(m.vcodec) == field_spec(raw.vcodec)
    &&& opt_text(m.acodec) == field_spec(raw.acodec)
}

/// The format entries of a source, possibly none.
pub open spec fn raw_formats(raw: RawSource) -> Seq<RawFormat> {
    match raw.formats {
        Some(v) => v@,
        None => Seq::empty(),
    }
}

/// `m` is the shown form of the probe result `raw`: its text fields trimmed and
/// dropped when blank (the uploader falling back to the channel, the extractor
/// key to the extractor), the entry count taken from `entries` or else from
/// `playlist_count`, and the formats the last 80 entries, latest first.
pub open spec fn metadata_shown(raw: RawSource, m: SourceMetadata) -> bool {
    let fs = raw_formats(raw);
    let n = if fs.len() < max_formats() { fs.len() } else { max_formats() };
    &&& opt_text(m.id) == field_spec(raw.id)
    &&& opt_text(m.title) == field_spec(raw.title)
    &&& opt_text(m.uploader) == or_else(field_spec(raw.uploader), field_spec(raw.channel))
    &&& opt_text(m.webpage_url) == field_spec(raw.webpage_url)
    &&& opt_text(m.extractor) == or_else(
        field_spec(raw.extractor_key),
        field_spec(raw.extractor),
    )
    &&& m.duration_bits == raw.duration_bits
    &&& opt_text(m.thumbnail) == field_spec(raw.thumbnail)
    &&& m.is_live == (raw.is_live == Some(true))
    &&& m.entry_count == match raw.entries_len {
        Some(len) => Some(len),
        None => match raw.playlist_count {
            Some(c) => Some(c as usize),
            None => None,
        },
    }
    &&& m.formats@.len() == n
    &&& forall|i: int| 0 <= i < n ==> format_shown(fs[fs.len() - 1 - i], #[trigger] m.formats@[i])
}

/// A text field as shown: trimmed, and absent when blank.
pub fn string_field(raw: &Option<String>) -> (r: Option<String>)
    ensures
        opt_text(r) == field_spec(*raw),
{
    match raw {
        Some(s) => {
            let cs = chars_of(s.as_str());
            let t = trim_chars(&cs);
            if t.len() > 0 {
                Some(string_of(&t))
            } else {
                None
            }
        },
        None => None,
    }
}

fn first_field(a: &Option<String>, b: &Option<String>) -> (r: Option<String>)
    ensures
        opt_text(r) == or_else(field_spec(*a), field_spec(*b)),
{
    match string_field(a) {
        Some(x) => Some(x),
        None => string_field(b),
    }
}

fn size_resolution_exec(width: Option<u64>, height: Option<u64>) -> (r: Option<String>)
    ensures
        opt_text(r) == size_resolution(width, height),
{
    match (width, height) {
        (Some(w), Some(h)) => {
            let mut v = decimal_chars(w);
            v.push('x');
            let hd = decimal_chars(h);
            push_all(&mut v, &hd);
            Some(string_of(&v))
        },
        (_, Some(h)) => {
            let mut v = decimal_chars(h);
            v.push('p');
            Some(string_of(&v))
        },
        _ => None,
    }
}

/// The shown form of one format entry.
pub fn media_format_from_raw(raw: &RawFormat) -> (m: MediaFormat)
    ensures
        format_shown(*raw, m),
{
    let resolution = match string_field(&raw.resolution) {
        Some(r) => Some(r),
        None => size_resolution_exec(raw.width, raw.height),
    };
    let filesize = match raw.filesize {
        Some(v) => v,
        None => raw.filesize_approx,
    };
    MediaFormat {
        format_id: string_field(&raw.format_id),
        ext: string_field(&raw.ext),
        resolution,
        fps_bits: raw.fps_bits,
        filesize,
        vcodec: string_field(&raw.vcodec),
        acodec: string_field(&raw.acodec),
    }
}

/// The shown form of a probe result.
#[verifier::rlimit(40)]
pub fn metadata_from_raw(raw: &RawSource) -> (m: SourceMetadata)
    ensures
        metadata_shown(*raw, m),
{
    let mut formats: Vec<MediaFormat> = Vec::new();
    match &raw.formats {
        Some(items) => {
            let len = items.len();
            let n: usize = if len < 80 { len } else { 80 };
            for i in 0..n
                invariant
                    raw_formats(*raw) == items@,
                    len == items@.len(),
                    n <= len,
                    n <= 80,
                    formats@.len() == i,
                    forall|j: int|
                        0 <= j < i ==> format_shown(items@[len - 1 - j], #[trigger] formats@[j]),
            {
                formats.push(media_format_from_raw(&items[len - 1 - i]));
            }
        },
        None => {},
    }
    let entry_count = match raw.entries_len {
        Some(len) => Some(len),
        None => match raw.playlist_count {
            Some(c) => Some(c as usize),
            None => None,
        },
    };
    SourceMetadata {
        id: string_field(&raw.id),
        title: string_field(&raw.title),
        uploader: first_field(&raw.uploader, &raw.channel),
        webpage_url: string_field(&raw.webpage_url),
        extractor: first_field(&raw.extractor_key, &raw.extractor),
        duration_bits: raw.duration_bits,
        thumbnail: string_field(&raw.thumbnail),
        is_live: match raw.is_live {
            Some(b) => b,
            None => false,
        },
        entry_count,
        formats,
    }
}

} // verus!
