//! A plain model of a parsed JSON document, and the reading of yt-dlp's probe
//! output from it into [`RawSource`].
use vstd::prelude::*;
use crate::metadata::{opt_text, RawFormat, RawSource, SourceMetadata, metadata_shown, raw_formats};
use crate::text::{chars_eq, chars_of, trim};

verus! {

/// A JSON number as the reader sees it: its value as an unsigned integer, when
/// it is one, and the bit pattern of its value as a float, when it has one.
pub struct JsonNumber {
    pub as_u64: Option<u64>,
    pub f64_bits: Option<u64>,
}

/// A parsed JSON value. An object lists its members in order, each key once.
pub enum JsonValue {
    Null,
    Bool(bool),
    Number(JsonNumber),
    Str(String),
    Array(Vec<JsonValue>),
    Object(Vec<(String, JsonValue)>),
}

/// The value of the first member named `key`.
pub open spec fn first_member(members: Seq<(String, JsonValue)>, key: Seq<char>) -> Option<JsonValue>
    decreases members.len(),
{
    if members.len() == 0 {
        None
    } else if members[0].0@ == key {
        Some(members[0].1)
    } else {
        first_member(members.drop_first(), key)
    }
}

/// The member `key` of an object; `None` for anything else.
pub open spec fn json_get(v: JsonValue, key: Seq<char>) -> Option<JsonValue> {
    match v {
        JsonValue::Object(members) => first_member(members@, key),
        _ => None,
    }
}

/// The text of a string value.
pub open spec fn json_str(o: Option<JsonValue>) -> Option<Seq<char>> {
    match o {
        Some(JsonValue::Str(s)) => Some(s@),
        _ => None,
    }
}

/// The unsigned-integer value of a number.
pub open spec fn json_u64(o: Option<JsonValue>) -> Option<u64> {
    match o {
        Some(JsonValue::Number(n)) => n.as_u64,
        _ => None,
    }
}

/// The float bit pattern of a number.
pub open spec fn json_f64_bits(o: Option<JsonValue>) -> Option<u64> {
    match o {
        Some(JsonValue::Number(n)) => n.f64_bits,
        _ => None,
    }
}

/// The value of a boolean.
pub open spec fn json_bool(o: Option<JsonValue>) -> Option<bool> {
    match o {
        Some(JsonValue::Bool(b)) => Some(b),
        _ => None,
    }
}

/// The length of an array.
pub open spec fn json_array_len(o: Option<JsonValue>) -> Option<nat> {
    match o {
        Some(JsonValue::Array(items)) => Some(items@.len()),
        _ => None,
    }
}

/// `f` holds the fields of the format entry `v`, read as [`RawFormat`] documents.
pub open spec fn format_read(v: JsonValue, f: RawFormat) -> bool {
    &&& opt_text(f.format_id) == json_str(json_get(v, "format_id"@))
    &&& opt_text(f.ext) == json_str(json_get(v, "ext"@))
    &&& opt_text(f.resolution) == json_str(json_get(v, "resolution"@))
    &&& f.width == json_u64(json_get(v, "width"@))
    &&& f.height == json_u64(json_get(v, "height"@))
    &&& f.fps_bits == json_f64_bits(json_get(v, "fps"@))
    &&& f.filesize == match json_get(v, "filesize"@) {
        Some(x) => Some(json_u64(Some(x))),
        None => None,
    }
    &&& f.filesize_approx == json_u64(json_get(v, "filesize_approx"@))
    &&& opt_text(f.vcodec) == json_str(json_get(v, "vcodec"@))
    &&& opt_text(f.acodec) == json_str(json_get(v, "acodec"@))
}

/// `r` holds the top-level fields of yt-dlp's JSON `v`, read as [`RawSource`]
/// documents.
pub open spec fn source_read(v: JsonValue, r: RawSource) -> bool {
    &&& opt_text(r.id) == json_str(json_get(v, "id"@))
    &&& opt_text(r.title) == json_str(json_get(v, "title"@))
    &&& opt_text(r.uploader) == json_str(json_get(v, "uploader"@))
    &&& opt_text(r.channel) == json_str(json_get(v, "channel"@))
    &&& opt_text(r.webpage_url) == json_str(json_get(v, "webpage_url"@))
    &&& opt_text(r.extractor_key) == json_str(json_get(v, "extractor_key"@))
    &&& opt_text(r.extractor) == json_str(json_get(v, "extractor"@))
    &&& r.duration_bits == json_f64_bits(json_get(v, "duration"@))
    &&& opt_text(r.thumbnail) == json_str(json_get(v, "thumbnail"@))
    &&& r.is_live == json_bool(json_get(v, "is_live"@))
    &&& match r.entries_len {
        Some(n) => json_array_len(json_get(v, "entries"@)) == Some(n as nat),
        None => json_array_len(json_get(v, "entries"@)) is None,
    }
    &&& r.playlist_count == json_u64(json_get(v, "playlist_count"@))
    &&& match json_get(v, "formats"@) {
        Some(JsonValue::Array(items)) => r.formats matches Some(fs) && fs@.len() == items@.len()
            && forall|i: int| 0 <= i < items@.len() ==> format_read(#[trigger] items@[i], fs@[i]),
        _ => r.formats is None,
    }
}

/// `Value::get`: the member `key` of an object; `None` for anything else.
pub fn json_member<'a>(value: &'a JsonValue, key: &str) -> (r: Option<&'a JsonValue>)
    ensures
        r is Some <==> json_get(*value, key@) is Some,
        r matches Some(x) ==> json_get(*value, key@) == Some(*x),
{
    match value {
        JsonValue::Object(members) => {
            let k = chars_of(key);
            let mut i: usize = 0;
            assert(members@.skip(0) =~= members@);
            while i < members.len()
                invariant
                    i <= members@.len(),
                    json_get(*value, key@) == first_member(members@, key@),
                    k@ == key@,
                    first_member(members@, key@) == first_member(members@.skip(i as int), key@),
                decreases members@.len() - i,
            {
                let name = chars_of(members[i].0.as_str());
                assert(members@.skip(i as int).drop_first() =~= members@.skip(i + 1));
                assert(members@.skip(i as int)[0] == members@[i as int]);
                if chars_eq(&name, &k) {
                    return Some(&members[i].1);
                }
                i = i + 1;
            }
            assert(members@.skip(i as int).len() == 0);
            None
        },
        _ => None,
    }
}

/// `get(key).and_then(Value::as_str)`, owned.
pub fn member_str(value: &JsonValue, key: &str) -> (r: Option<String>)
    ensures
        opt_text(r) == json_str(json_get(*value, key@)),
{
    match json_member(value, key) {
        Some(JsonValue::Str(s)) => Some(s.clone()),
        _ => None,
    }
}

/// `get(key).and_then(Value::as_u64)`.
pub fn member_u64(value: &JsonValue, key: &str) -> (r: Option<u64>)
    ensures
        r == json_u64(json_get(*value, key@)),
{
    match json_member(value, key) {
        Some(JsonValue::Number(n)) => n.as_u64,
        _ => None,
    }
}

/// `get(key).and_then(Value::as_f64)`, as its bit pattern.
pub fn member_f64_bits(value: &JsonValue, key: &str) -> (r: Option<u64>)
    ensures
        r == json_f64_bits(json_get(*value, key@)),
{
    match json_member(value, key) {
        Some(JsonValue::Number(n)) => n.f64_bits,
        _ => None,
    }
}

/// `get(key).and_then(Value::as_bool)`.
pub fn member_bool(value: &JsonValue, key: &str) -> (r: Option<bool>)
    ensures
        r == json_bool(json_get(*value, key@)),
{
    match json_member(value, key) {
        Some(JsonValue::Bool(b)) => Some(*b),
        _ => None,
    }
}

/// One format entry of yt-dlp's JSON read into [`RawFormat`].
pub fn raw_format_of(value: &JsonValue) -> (r: RawFormat)
    ensures
        format_read(*value, r),
{
    let filesize = match json_member(value, "filesize") {
        Some(JsonValue::Number(n)) => Some(n.as_u64),
        Some(_) => Some(None),
        None => None,
    };
    RawFormat {
        format_id: member_str(value, "format_id"),
        ext: member_str(value, "ext"),
        resolution: member_str(value, "resolution"),
        width: member_u64(value, "width"),
        height: member_u64(value, "height"),
        fps_bits: member_f64_bits(value, "fps"),
        filesize,
        filesize_approx: member_u64(value, "filesize_approx"),
        vcodec: member_str(value, "vcodec"),
        acodec: member_str(value, "acodec"),
    }
}

/// yt-dlp's JSON for a source read into [`RawSource`]: `entries_len` is the
/// length of `entries` when it is an array, and `formats` the entries of
/// `formats` when it is an array.
pub fn raw_source_of(value: &JsonValue) -> (r: RawSource)
    ensures
        source_read(*value, r),
{
    let entries_len = match json_member(value, "entries") {
        Some(JsonValue::Array(items)) => Some(items.len()),
        _ => None,
    };
    let formats = match json_member(value, "formats") {
        Some(JsonValue::Array(items)) => {
            let mut fs: Vec<RawFormat> = Vec::new();
            for i in 0..items.len()
                invariant
                    fs@.len() == i,
                    forall|j: int| 0 <= j < i ==> format_read(#[trigger] items@[j], fs@[j]),
            {
                let f = raw_format_of(&items[i]);
                fs.push(f);
            }
            Some(fs)
        },
        _ => None,
    };
    RawSource {
        id: member_str(value, "id"),
        title: member_str(value, "title"),
        uploader: member_str(value, "uploader"),
        channel: member_str(value, "channel"),
        webpage_url: member_str(value, "webpage_url"),
        extractor_key: member_str(value, "extractor_key"),
        extractor: member_str(value, "extractor"),
        duration_bits: member_f64_bits(value, "duration"),
        thumbnail: member_str(value, "thumbnail"),
        is_live: member_bool(value, "is_live"),
        entries_len,
        playlist_count: member_u64(value, "playlist_count"),
        formats,
    }
}


/// A JSON text as the interface shows it: trimmed, and absent when blank or
/// not a string.
pub open spec fn shown_text(o: Option<Seq<char>>) -> Option<Seq<char>> {
    match o {
        Some(t) => if trim(t).len() > 0 {
            Some(trim(t))
        } else {
            None
        },
        None => None,
    }
}

/// Each format shown for a probe takes its identifier, container, video codec,
/// audio codec and frame rate from the JSON fields `format_id`, `ext`,
/// `vcodec`, `acodec` and `fps` of its own entry (the entries shown latest
/// first), and its size from `filesize` when that key is present, else from
/// `filesize_approx`; no format is shown when `formats` is not an array.
pub proof fn law_probe_format_fields(v: JsonValue, raw: RawSource, m: SourceMetadata)
    requires
        source_read(v, raw),
        metadata_shown(raw, m),
    ensures
        match json_get(v, "formats"@) {
            Some(JsonValue::Array(items)) => forall|i: int|
                0 <= i < m.formats@.len() ==> {
                    let item = items@[items@.len() - 1 - i];
                    &&& opt_text((#[trigger] m.formats@[i]).vcodec) == shown_text(
                        json_str(json_get(item, "vcodec"@)),
                    )
                    &&& opt_text(m.formats@[i].acodec) == shown_text(
                        json_str(json_get(item, "acodec"@)),
                    )
                    &&& opt_text(m.formats@[i].format_id) == shown_text(
                        json_str(json_get(item, "format_id"@)),
                    )
                    &&& opt_text(m.formats@[i].ext) == shown_text(json_str(json_get(item, "ext"@)))
                    &&& m.formats@[i].fps_bits == json_f64_bits(json_get(item, "fps"@))
                    &&& m.formats@[i].filesize == match json_get(item, "filesize"@) {
                        Some(x) => json_u64(Some(x)),
                        None => json_u64(json_get(item, "filesize_approx"@)),
                    }
                },
            _ => m.formats@.len() == 0,
        },
{
    match json_get(v, "formats"@) {
        Some(JsonValue::Array(items)) => {
            let fs = raw_formats(raw);
            assert(fs.len() == items@.len());
            assert forall|i: int| 0 <= i < m.formats@.len() implies {
                let item = items@[items@.len() - 1 - i];
                &&& opt_text((#[trigger] m.formats@[i]).vcodec) == shown_text(
                    json_str(json_get(item, "vcodec"@)),
                )
                &&& opt_text(m.formats@[i].acodec) == shown_text(
                    json_str(json_get(item, "acodec"@)),
                )
                &&& opt_text(m.formats@[i].format_id) == shown_text(
                    json_str(json_get(item, "format_id"@)),
                )
                &&& opt_text(m.formats@[i].ext) == shown_text(json_str(json_get(item, "ext"@)))
                &&& m.formats@[i].fps_bits == json_f64_bits(json_get(item, "fps"@))
                &&& m.formats@[i].filesize == match json_get(item, "filesize"@) {
                    Some(x) => json_u64(Some(x)),
                    None => json_u64(json_get(item, "filesize_approx"@)),
                }
            } by {
                let j = fs.len() - 1 - i;
                assert(format_read(items@[j], fs[j]));
                let f = fs[j];
                match f.vcodec { Some(_) => {}, None => {} }
                match f.acodec { Some(_) => {}, None => {} }
                match f.format_id { Some(_) => {}, None => {} }
                match f.ext { Some(_) => {}, None => {} }
            }
        },
        _ => {},
    }
}

} // verus!
