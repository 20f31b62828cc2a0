use daedalus::json::{raw_source_of, JsonNumber, JsonValue};
use daedalus::search::{
    exe_direct_path, exe_search_begin, exe_search_descend, exe_search_next, is_searchable_entry,
    root_search_begin, root_search_step, workspace_markers, DirEntryInfo, RootSearch,
};

fn probe_of(state: &RootSearch) -> Option<(usize, String)> {
    match state {
        RootSearch::Probe { start, ancestor } => Some((*start, ancestor.clone())),
        RootSearch::Done(_) => None,
    }
}

fn done_of(state: RootSearch) -> Option<Option<String>> {
    match state {
        RootSearch::Done(found) => Some(found),
        RootSearch::Probe { .. } => None,
    }
}

#[test]
fn workspace_markers_join_obelisk_and_app() {
    let (obelisk, app) = workspace_markers("/work/reliquary", "daedalus");
    assert_eq!(obelisk, "/work/reliquary/obelisk");
    assert_eq!(app, "/work/reliquary/daedalus");
}

#[test]
fn root_search_walks_ancestors_then_next_start() {
    let starts = vec!["/a/b".to_string(), "/c".to_string()];
    assert_eq!(probe_of(&root_search_begin(&starts)), Some((0, "/a/b".to_string())));
    assert_eq!(probe_of(&root_search_step(&starts, 0, "/a/b", false)), Some((0, "/a".to_string())));
    assert_eq!(probe_of(&root_search_step(&starts, 0, "/a", false)), Some((0, "/".to_string())));
    assert_eq!(probe_of(&root_search_step(&starts, 0, "/", false)), Some((1, "/c".to_string())));
    assert_eq!(done_of(root_search_step(&starts, 1, "/", false)), Some(None));
    assert_eq!(done_of(root_search_step(&starts, 1, "/c", true)), Some(Some("/c".to_string())));
}

#[test]
fn root_search_without_starts_finds_nothing() {
    assert_eq!(done_of(root_search_begin(&Vec::new())), Some(None));
}

#[test]
fn exe_search_descends_in_order_and_skips_node_modules() {
    let mut pending = exe_search_begin("/root".to_string(), 2);
    let first = exe_search_next(&mut pending).unwrap();
    assert_eq!((first.path.as_str(), first.depth), ("/root", 2));
    assert_eq!(exe_direct_path(&first.path, "ffmpeg.exe"), "/root/ffmpeg.exe");
    exe_search_descend(
        &mut pending,
        first.depth,
        vec![
            DirEntryInfo { path: "/root/a".to_string(), is_dir: true },
            DirEntryInfo { path: "/root/node_modules".to_string(), is_dir: true },
            DirEntryInfo { path: "/root/file.txt".to_string(), is_dir: false },
            DirEntryInfo { path: "/root/b".to_string(), is_dir: true },
        ],
    );
    let next = exe_search_next(&mut pending).unwrap();
    assert_eq!((next.path.as_str(), next.depth), ("/root/a", 1));
    exe_search_descend(
        &mut pending,
        next.depth,
        vec![DirEntryInfo { path: "/root/a/deep".to_string(), is_dir: true }],
    );
    let next = exe_search_next(&mut pending).unwrap();
    assert_eq!((next.path.as_str(), next.depth), ("/root/b", 1));
    assert!(exe_search_next(&mut pending).is_none());
}

#[test]
fn node_modules_is_not_searched() {
    assert!(!is_searchable_entry(&DirEntryInfo { path: "/x/node_modules".to_string(), is_dir: true }));
    assert!(is_searchable_entry(&DirEntryInfo { path: "/x/modules".to_string(), is_dir: true }));
    assert!(!is_searchable_entry(&DirEntryInfo { path: "/x/tool".to_string(), is_dir: false }));
}

fn text(s: &str) -> JsonValue {
    JsonValue::Str(s.to_string())
}

fn uint(n: u64) -> JsonValue {
    JsonValue::Number(JsonNumber { as_u64: Some(n), f64_bits: Some((n as f64).to_bits()) })
}

fn float(x: f64) -> JsonValue {
    JsonValue::Number(JsonNumber { as_u64: None, f64_bits: Some(x.to_bits()) })
}

fn object(members: Vec<(&str, JsonValue)>) -> JsonValue {
    JsonValue::Object(members.into_iter().map(|(k, v)| (k.to_string(), v)).collect())
}

#[test]
fn raw_source_reads_the_probe_fields() {
    let value = object(vec![
        ("id", text("abc")),
        ("title", text("A title")),
        ("uploader", uint(5)),
        ("duration", float(12.5)),
        ("is_live", JsonValue::Bool(false)),
        ("entries", JsonValue::Array(vec![JsonValue::Null, JsonValue::Null])),
        ("playlist_count", uint(7)),
        (
            "formats",
            JsonValue::Array(vec![
                object(vec![
                    ("format_id", text("137")),
                    ("width", uint(1920)),
                    ("height", uint(1080)),
                    ("fps", float(29.97)),
                    ("filesize", JsonValue::Null),
                    ("filesize_approx", uint(900)),
                ]),
                object(vec![("filesize", uint(1234)), ("ext", text("webm"))]),
            ]),
        ),
    ]);
    let raw = raw_source_of(&value);
    assert_eq!(raw.id.as_deref(), Some("abc"));
    assert_eq!(raw.title.as_deref(), Some("A title"));
    assert_eq!(raw.uploader, None);
    assert_eq!(raw.channel, None);
    assert_eq!(raw.duration_bits, Some(12.5f64.to_bits()));
    assert_eq!(raw.is_live, Some(false));
    assert_eq!(raw.entries_len, Some(2));
    assert_eq!(raw.playlist_count, Some(7));
    let formats = raw.formats.unwrap();
    assert_eq!(formats.len(), 2);
    assert_eq!(formats[0].format_id.as_deref(), Some("137"));
    assert_eq!(formats[0].width, Some(1920));
    assert_eq!(formats[0].height, Some(1080));
    assert_eq!(formats[0].fps_bits, Some(29.97f64.to_bits()));
    assert_eq!(formats[0].filesize, Some(None));
    assert_eq!(formats[0].filesize_approx, Some(900));
    assert_eq!(formats[1].filesize, Some(Some(1234)));
    assert_eq!(formats[1].ext.as_deref(), Some("webm"));
    assert_eq!(formats[1].format_id, None);
}

#[test]
fn raw_source_of_non_object_or_non_arrays() {
    let raw = raw_source_of(&JsonValue::Array(vec![]));
    assert!(raw.id.is_none() && raw.formats.is_none() && raw.entries_len.is_none());
    let raw = raw_source_of(&object(vec![("formats", text("x")), ("entries", uint(3))]));
    assert!(raw.formats.is_none());
    assert!(raw.entries_len.is_none());
}
