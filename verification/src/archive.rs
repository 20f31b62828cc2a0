//! Picking the executables out of the downloaded ffmpeg and Deno archives.
use vstd::prelude::*;
use crate::text::{
    chars_of, ends_with, ends_with_chars, push_all, replace_char, replace_char_chars, string_of,
};

verus! {

/// `zip::ZipArchive`, opaque to Verus.
#[verifier::external_type_specification]
#[verifier::external_body]
#[verifier::reject_recursive_types(R)]
pub struct ExZipArchive<R>(zip::ZipArchive<R>);

/// `std::io::Cursor`, opaque to Verus.
#[verifier::external_type_specification]
#[verifier::external_body]
#[verifier::reject_recursive_types(T)]
pub struct ExCursor<T>(std::io::Cursor<T>);

/// `zip::result::ZipError`, opaque to Verus.
#[verifier::external_type_specification]
#[verifier::external_body]
pub struct ExZipError(zip::result::ZipError);

/// `std::io::Error`, opaque to Verus.
#[verifier::external_type_specification]
#[verifier::external_body]
pub struct ExIoError(std::io::Error);

/// For each entry of an opened archive, in order, its name as `ZipFile::name`
/// gives it, or `None` when the entry or its name cannot be read.
pub uninterp spec fn zip_entry_names(
    archive: zip::ZipArchive<std::io::Cursor<Vec<u8>>>,
) -> Seq<Option<Seq<char>>>;

/// For each entry of an opened archive, in order, its decompressed contents, or
/// `None` when they cannot be read.
pub uninterp spec fn zip_entry_contents(
    archive: zip::ZipArchive<std::io::Cursor<Vec<u8>>>,
) -> Seq<Option<Seq<u8>>>;

/// What `str::to_lowercase` makes of a text (full Unicode lower-casing).
pub uninterp spec fn lowercase_text(s: Seq<char>) -> Seq<char>;

/// `str::to_lowercase`. Believed: the result is `lowercase_text(s)`.
#[verifier::external_body]
fn to_lowercase(s: &str) -> (r: String)
    ensures
        r@ == lowercase_text(s@),
{
    s.to_lowercase()
}

/// Whether `zip::ZipArchive::new` reads `bytes` as an archive (a function of
/// the bytes alone: it parses the central directory they hold).
pub uninterp spec fn zip_archive_opens(bytes: Seq<u8>) -> bool;

/// For each entry of the archive that `bytes` hold, in order, its name as
/// `ZipFile::name` reads it (`None` when it cannot be read): a function of the
/// bytes alone, since the archive is read from them and nothing else.
pub uninterp spec fn archive_entry_names(bytes: Seq<u8>) -> Seq<Option<Seq<char>>>;

/// For each entry of the archive that `bytes` hold, in order, its decompressed
/// contents (`None` when they cannot be read): a function of the bytes alone.
pub uninterp spec fn archive_entry_contents(bytes: Seq<u8>) -> Seq<Option<Seq<u8>>>;

/// `zip::ZipArchive::new` over the downloaded bytes. Believed: it succeeds
/// exactly when `zip_archive_opens(bytes)`, and the archive it gives holds the
/// entries of those bytes (`archive_entry_names`, `archive_entry_contents`).
#[verifier::external_body]
fn zip_open(bytes: Vec<u8>) -> (r: Result<zip::ZipArchive<std::io::Cursor<Vec<u8>>>, zip::result::ZipError>)
    ensures
        r is Ok <==> zip_archive_opens(bytes@),
        r matches Ok(a) ==> zip_entry_names(a) == archive_entry_names(bytes@)
            && zip_entry_contents(a) == archive_entry_contents(bytes@),
{
    zip::ZipArchive::new(std::io::Cursor::new(bytes))
}

/// `ZipArchive::len`. Believed: the number of entries, which is the length of
/// both entry lists.
#[verifier::external_body]
fn zip_len(archive: &zip::ZipArchive<std::io::Cursor<Vec<u8>>>) -> (r: usize)
    ensures
        r == zip_entry_names(*archive).len(),
        r == zip_entry_contents(*archive).len(),
{
    archive.len()
}

/// `ZipArchive::by_index`, then `ZipFile::name` on the entry it gives. Believed:
/// the result is the entry's name as `zip_entry_names` holds it (an error exactly
/// when that holds `None`), and reading an entry changes neither list (the
/// archive's directory is not touched; only the reader's position moves).
#[verifier::external_body]
fn zip_entry_name(archive: &mut zip::ZipArchive<std::io::Cursor<Vec<u8>>>, index: usize) -> (r:
    Result<String, zip::result::ZipError>)
    requires
        index < zip_entry_names(*old(archive)).len(),
    ensures
        zip_entry_names(*final(archive)) == zip_entry_names(*old(archive)),
        zip_entry_contents(*final(archive)) == zip_entry_contents(*old(archive)),
        r is Ok <==> zip_entry_names(*old(archive))[index as int] is Some,
        r matches Ok(n) ==> zip_entry_names(*old(archive))[index as int] == Some(n@),
{
    match archive.by_index(index) {
        Ok(entry) => match entry.name() {
            Ok(name) => Ok(name.into_owned()),
            Err(error) => Err(error),
        },
        Err(error) => Err(error),
    }
}

/// `ZipArchive::by_index`, then `Read::read_to_end` on the entry it gives (a
/// failure to find the entry is turned into an I/O error by zip's own `From`).
/// Believed: the result is the entry's contents as `zip_entry_contents` holds
/// them (an error exactly when that holds `None`), and reading an entry changes
/// neither list.
#[verifier::external_body]
fn zip_entry_data(archive: &mut zip::ZipArchive<std::io::Cursor<Vec<u8>>>, index: usize) -> (r:
    Result<Vec<u8>, std::io::Error>)
    requires
        index < zip_entry_contents(*old(archive)).len(),
    ensures
        zip_entry_names(*final(archive)) == zip_entry_names(*old(archive)),
        zip_entry_contents(*final(archive)) == zip_entry_contents(*old(archive)),
        r is Ok <==> zip_entry_contents(*old(archive))[index as int] is Some,
        r matches Ok(d) ==> zip_entry_contents(*old(archive))[index as int] == Some(d@),
{
    let mut entry = archive.by_index(index).map_err(std::io::Error::from)?;
    let mut data = Vec::new();
    std::io::Read::read_to_end(&mut entry, &mut data)?;
    Ok(data)
}

/// The `Display` text of a zip error. Nothing is claimed of it.
#[verifier::external_body]
fn zip_error_text(error: &zip::result::ZipError) -> String {
    error.to_string()
}

/// The `Display` text of an I/O error. Nothing is claimed of it.
#[verifier::external_body]
fn io_error_text(error: &std::io::Error) -> String {
    error.to_string()
}

/// Which archive is being unpacked.
pub enum ArchiveKind {
    Ffmpeg,
    Deno,
}

/// Why unpacking an archive stopped.
pub enum ArchiveError {
    /// The archive could not be opened.
    OpenFailed { detail: String },
    /// The entry at `index` (or its name) could not be read.
    EntryUnreadable { index: usize, detail: String },
    /// The contents of the entry at `index`, to be installed as `file_name`,
    /// could not be read.
    ExtractFailed { index: usize, file_name: String, detail: String },
    /// No entry held the tool's executable.
    Missing,
}

/// One file to install: its name in the tools directory and its contents.
pub struct ArchiveFile {
    pub file_name: String,
    pub data: Vec<u8>,
}

/// The files unpacked, in order, and whether unpacking finished.
pub struct ArchiveExtraction {
    pub files: Vec<ArchiveFile>,
    pub outcome: Result<(), ArchiveError>,
}

/// An entry name with back slashes turned into forward slashes, then lower-cased.
pub open spec fn normalized_entry_name(name: Seq<char>) -> Seq<char> {
    lowercase_text(replace_char(name, '\\', '/'))
}

/// The executable an ffmpeg archive entry installs, by its normalized name.
pub open spec fn ffmpeg_target(normalized: Seq<char>) -> Option<Seq<char>> {
    if ends_with(normalized, "/bin/ffmpeg.exe"@) {
        Some("ffmpeg.exe"@)
    } else if ends_with(normalized, "/bin/ffprobe.exe"@) {
        Some("ffprobe.exe"@)
    } else {
        None
    }
}

/// Whether a Deno archive entry, by its normalized name, is the executable.
pub open spec fn is_deno_entry(normalized: Seq<char>) -> bool {
    ends_with(normalized, "deno.exe"@)
}

/// Where a scan of entries stopped early: `(true, i)` when entry `i` could not be
/// read, `(false, i)` when its contents could not be.
pub type ScanStop = Option<(bool, nat)>;

/// Scanning the first `n` entries of an ffmpeg archive: the files found, in
/// order, and where the scan stopped, if it did.
pub open spec fn ffmpeg_scan(names: Seq<Option<Seq<char>>>, contents: Seq<Option<Seq<u8>>>, n: nat) -> (
    Seq<(Seq<char>, Seq<u8>)>,
    ScanStop,
)
    decreases n,
{
    if n == 0 {
        (seq![], None)
    } else {
        let (files, stop) = ffmpeg_scan(names, contents, (n - 1) as nat);
        let i = (n - 1) as nat;
        if stop is Some {
            (files, stop)
        } else {
            match names[i as int] {
                None => (files, Some((true, i))),
                Some(name) => match ffmpeg_target(normalized_entry_name(name)) {
                    None => (files, None),
                    Some(target) => match contents[i as int] {
                        None => (files, Some((false, i))),
                        Some(d) => (files.push((target, d)), None),
                    },
                },
            }
        }
    }
}

proof fn lemma_ffmpeg_scan_stays(
    names: Seq<Option<Seq<char>>>,
    contents: Seq<Option<Seq<u8>>>,
    k: nat,
    n: nat,
)
    requires
        k <= n,
        ffmpeg_scan(names, contents, k).1 is Some,
    ensures
        ffmpeg_scan(names, contents, n) == ffmpeg_scan(names, contents, k),
    decreases n,
{
    if n > k {
        lemma_ffmpeg_scan_stays(names, contents, k, (n - 1) as nat);
    }
}

/// Every file an ffmpeg scan unpacks is `ffmpeg.exe` or `ffprobe.exe`.
pub proof fn law_ffmpeg_scan_names(
    names: Seq<Option<Seq<char>>>,
    contents: Seq<Option<Seq<u8>>>,
    n: nat,
)
    ensures
        forall|k: int|
            0 <= k < ffmpeg_scan(names, contents, n).0.len() ==> (#[trigger] ffmpeg_scan(
                names,
                contents,
                n,
            ).0[k]).0 == "ffmpeg.exe"@ || ffmpeg_scan(names, contents, n).0[k].0 == "ffprobe.exe"@,
    decreases n,
{
    if n > 0 {
        law_ffmpeg_scan_names(names, contents, (n - 1) as nat);
        let prev = ffmpeg_scan(names, contents, (n - 1) as nat).0;
        let cur = ffmpeg_scan(names, contents, n).0;
        assert forall|k: int| 0 <= k < cur.len() implies (#[trigger] cur[k]).0 == "ffmpeg.exe"@
            || cur[k].0 == "ffprobe.exe"@ by {
            if k < prev.len() {
                assert(cur[k] == prev[k]);
            }
        }
    }
}

/// The view of unpacked files.
pub open spec fn files_view(v: Seq<ArchiveFile>) -> Seq<(Seq<char>, Seq<u8>)> {
    v.map_values(|f: ArchiveFile| (f.file_name@, f.data@))
}

/// Some unpacked file is `ffmpeg.exe`.
pub open spec fn has_ffmpeg(files: Seq<(Seq<char>, Seq<u8>)>) -> bool {
    exists|i: int| 0 <= i < files.len() && (#[trigger] files[i]).0 == "ffmpeg.exe"@
}

/// How an ffmpeg unpacking ends, given where the scan stopped.
pub open spec fn ffmpeg_outcome_fits(
    outcome: Result<(), ArchiveError>,
    names: Seq<Option<Seq<char>>>,
    files: Seq<(Seq<char>, Seq<u8>)>,
    stop: ScanStop,
) -> bool {
    match stop {
        Some((true, i)) => match outcome {
            Err(ArchiveError::EntryUnreadable { index, .. }) => index == i,
            _ => false,
        },
        Some((false, i)) => match outcome {
            Err(ArchiveError::ExtractFailed { index, file_name, .. }) => index == i && match names[i as int] {
                Some(name) => ffmpeg_target(normalized_entry_name(name)) == Some(file_name@),
                None => false,
            },
            _ => false,
        },
        None => if has_ffmpeg(files) {
            outcome is Ok
        } else {
            outcome matches Err(ArchiveError::Missing)
        },
    }
}

/// Opens a downloaded archive.
pub fn open_archive(bytes: Vec<u8>) -> (r: Result<
    zip::ZipArchive<std::io::Cursor<Vec<u8>>>,
    ArchiveError,
>)
    ensures
        r is Ok <==> zip_archive_opens(bytes@),
        r matches Ok(a) ==> zip_entry_names(a) == archive_entry_names(bytes@)
            && zip_entry_contents(a) == archive_entry_contents(bytes@),
        r matches Err(e) ==> e is OpenFailed,
{
    match zip_open(bytes) {
        Ok(a) => Ok(a),
        Err(e) => Err(ArchiveError::OpenFailed { detail: zip_error_text(&e) }),
    }
}

fn normalize_entry(name: &str) -> (r: Vec<char>)
    ensures
        r@ == normalized_entry_name(name@),
{
    let cs = chars_of(name);
    let replaced = replace_char_chars(&cs, '\\', '/');
    let s = string_of(&replaced);
    let lower = to_lowercase(s.as_str());
    chars_of(lower.as_str())
}

fn push_file(files: &mut Vec<ArchiveFile>, file_name: String, data: Vec<u8>)
    ensures
        files_view(final(files)@) == files_view(old(files)@).push((file_name@, data@)),
{
    let ghost before = files@;
    let ghost entry = (file_name@, data@);
    files.push(ArchiveFile { file_name, data });
    assert(files_view(files@) == files_view(before).push(entry));
}

/// Unpacks `ffmpeg.exe` and `ffprobe.exe` from the ffmpeg archive: every entry
/// whose normalized name ends in `/bin/ffmpeg.exe` or `/bin/ffprobe.exe`, in
/// order, stopping at the first entry that cannot be read; the unpacking fails
/// when no `ffmpeg.exe` was found.
#[verifier::rlimit(40)]
pub fn ffmpeg_archive_files(archive: &mut zip::ZipArchive<std::io::Cursor<Vec<u8>>>) -> (r:
    ArchiveExtraction)
    ensures
        ({
            let names = zip_entry_names(*old(archive));
            let contents = zip_entry_contents(*old(archive));
            let (files, stop) = ffmpeg_scan(names, contents, names.len());
            &&& files_view(r.files@) == files
            &&& ffmpeg_outcome_fits(r.outcome, names, files, stop)
        }),
{
    let ghost names = zip_entry_names(*archive);
    let ghost contents = zip_entry_contents(*archive);
    let n = zip_len(archive);
    let mut files: Vec<ArchiveFile> = Vec::new();
    let mut found_ffmpeg = false;
    let suffix_ffmpeg = chars_of("/bin/ffmpeg.exe");
    let suffix_ffprobe = chars_of("/bin/ffprobe.exe");
    for i in 0..n
        invariant
            n == names.len(),
            n == contents.len(),
            zip_entry_names(*archive) == names,
            zip_entry_contents(*archive) == contents,
            names == zip_entry_names(*old(archive)),
            contents == zip_entry_contents(*old(archive)),
            suffix_ffmpeg@ == "/bin/ffmpeg.exe"@,
            suffix_ffprobe@ == "/bin/ffprobe.exe"@,
            ffmpeg_scan(names, contents, i as nat) == (files_view(files@), None::<(bool, nat)>),
            found_ffmpeg == has_ffmpeg(files_view(files@)),
    {
        let name = match zip_entry_name(archive, i) {
            Ok(name) => name,
            Err(e) => {
                let detail = zip_error_text(&e);
                proof {
                    assert(names[i as int] is None);
                    assert(ffmpeg_scan(names, contents, (i + 1) as nat) == (
                        files_view(files@),
                        Some((true, i as nat)),
                    ));
                    lemma_ffmpeg_scan_stays(names, contents, (i + 1) as nat, names.len());
                }
                return ArchiveExtraction {
                    files,
                    outcome: Err(ArchiveError::EntryUnreadable { index: i, detail }),
                };
            },
        };
        let normalized = normalize_entry(name.as_str());
        let target = if ends_with_chars(&normalized, &suffix_ffmpeg) {
            Some("ffmpeg.exe")
        } else if ends_with_chars(&normalized, &suffix_ffprobe) {
            Some("ffprobe.exe")
        } else {
            None
        };
        assert(match target {
            Some(t) => ffmpeg_target(normalized_entry_name(name@)) == Some(t@),
            None => ffmpeg_target(normalized_entry_name(name@)) is None,
        });
        match target {
            None => {},
            Some(t) => {
                let data = match zip_entry_data(archive, i) {
                    Ok(d) => d,
                    Err(e) => {
                        let detail = io_error_text(&e);
                        proof {
                            assert(contents[i as int] is None);
                            assert(ffmpeg_scan(names, contents, (i + 1) as nat) == (
                                files_view(files@),
                                Some((false, i as nat)),
                            ));
                            lemma_ffmpeg_scan_stays(names, contents, (i + 1) as nat, names.len());
                        }
                        return ArchiveExtraction {
                            files,
                            outcome: Err(
                                ArchiveError::ExtractFailed {
                                    index: i,
                                    file_name: String::from_str(t),
                                    detail,
                                },
                            ),
                        };
                    },
                };
                let ghost before = files_view(files@);
                let is_ffmpeg = crate::text::chars_eq_str(&chars_of(t), "ffmpeg.exe");
                push_file(&mut files, String::from_str(t), data);
                proof {
                    let after = files_view(files@);
                    assert(after == before.push((t@, after.last().1)));
                    if is_ffmpeg {
                        assert(after[after.len() - 1].0 == "ffmpeg.exe"@);
                    } else {
                        assert forall|j: int| 0 <= j < after.len() && (#[trigger] after[j]).0
                            == "ffmpeg.exe"@ implies has_ffmpeg(before) by {
                            assert(j < before.len());
                            assert(after[j] == before[j]);
                        }
                    }
                    assert forall|j: int| 0 <= j < before.len() && (#[trigger] before[j]).0
                        == "ffmpeg.exe"@ implies has_ffmpeg(after) by {
                        assert(after[j] == before[j]);
                    }
                }
                found_ffmpeg = found_ffmpeg || is_ffmpeg;
            },
        }
    }
    if !found_ffmpeg {
        return ArchiveExtraction { files, outcome: Err(ArchiveError::Missing) };
    }
    ArchiveExtraction { files, outcome: Ok(()) }
}


/// Scanning the first `n` entries of a Deno archive for the executable: its
/// contents once found, and where the scan stopped, if it did.
pub open spec fn deno_scan(names: Seq<Option<Seq<char>>>, contents: Seq<Option<Seq<u8>>>, n: nat) -> (
    Option<Seq<u8>>,
    ScanStop,
)
    decreases n,
{
    if n == 0 {
        (None, None)
    } else {
        let (found, stop) = deno_scan(names, contents, (n - 1) as nat);
        let i = (n - 1) as nat;
        if found is Some || stop is Some {
            (found, stop)
        } else {
            match names[i as int] {
                None => (None, Some((true, i))),
                Some(name) => if is_deno_entry(normalized_entry_name(name)) {
                    match contents[i as int] {
                        None => (None, Some((false, i))),
                        Some(d) => (Some(d), None),
                    }
                } else {
                    (None, None)
                },
            }
        }
    }
}

proof fn lemma_deno_scan_stays(
    names: Seq<Option<Seq<char>>>,
    contents: Seq<Option<Seq<u8>>>,
    k: nat,
    n: nat,
)
    requires
        k <= n,
        deno_scan(names, contents, k).0 is Some || deno_scan(names, contents, k).1 is Some,
    ensures
        deno_scan(names, contents, n) == deno_scan(names, contents, k),
    decreases n,
{
    if n > k {
        lemma_deno_scan_stays(names, contents, k, (n - 1) as nat);
    }
}

/// How a Deno unpacking ends.
pub open spec fn deno_outcome_fits(
    r: ArchiveExtraction,
    found: Option<Seq<u8>>,
    stop: ScanStop,
) -> bool {
    match found {
        Some(d) => files_view(r.files@) == seq![("deno.exe"@, d)] && r.outcome is Ok,
        None => files_view(r.files@) == Seq::<(Seq<char>, Seq<u8>)>::empty() && match stop {
            Some((true, i)) => match r.outcome {
                Err(ArchiveError::EntryUnreadable { index, .. }) => index == i,
                _ => false,
            },
            Some((false, i)) => match r.outcome {
                Err(ArchiveError::ExtractFailed { index, file_name, .. }) => index == i
                    && file_name@ == "deno.exe"@,
                _ => false,
            },
            None => r.outcome matches Err(ArchiveError::Missing),
        },
    }
}

/// Unpacks `deno.exe` from the Deno archive: the first entry whose normalized
/// name ends in `deno.exe`, stopping at the first entry that cannot be read
/// before it; the unpacking fails when there is none.
#[verifier::rlimit(40)]
pub fn deno_archive_file(archive: &mut zip::ZipArchive<std::io::Cursor<Vec<u8>>>) -> (r:
    ArchiveExtraction)
    ensures
        ({
            let names = zip_entry_names(*old(archive));
            let contents = zip_entry_contents(*old(archive));
            let (found, stop) = deno_scan(names, contents, names.len());
            deno_outcome_fits(r, found, stop)
        }),
{
    let ghost names = zip_entry_names(*archive);
    let ghost contents = zip_entry_contents(*archive);
    let n = zip_len(archive);
    let suffix = chars_of("deno.exe");
    for i in 0..n
        invariant
            n == names.len(),
            n == contents.len(),
            zip_entry_names(*archive) == names,
            zip_entry_contents(*archive) == contents,
            names == zip_entry_names(*old(archive)),
            contents == zip_entry_contents(*old(archive)),
            suffix@ == "deno.exe"@,
            deno_scan(names, contents, i as nat) == (None::<Seq<u8>>, None::<(bool, nat)>),
    {
        let name = match zip_entry_name(archive, i) {
            Ok(name) => name,
            Err(e) => {
                let detail = zip_error_text(&e);
                proof {
                    assert(deno_scan(names, contents, (i + 1) as nat) == (
                        None::<Seq<u8>>,
                        Some((true, i as nat)),
                    ));
                    lemma_deno_scan_stays(names, contents, (i + 1) as nat, names.len());
                }
                let files: Vec<ArchiveFile> = Vec::new();
                assert(files_view(files@) == Seq::<(Seq<char>, Seq<u8>)>::empty());
                return ArchiveExtraction {
                    files,
                    outcome: Err(ArchiveError::EntryUnreadable { index: i, detail }),
                };
            },
        };
        let normalized = normalize_entry(name.as_str());
        if ends_with_chars(&normalized, &suffix) {
            let data = match zip_entry_data(archive, i) {
                Ok(d) => d,
                Err(e) => {
                    let detail = io_error_text(&e);
                    proof {
                        assert(deno_scan(names, contents, (i + 1) as nat) == (
                            None::<Seq<u8>>,
                            Some((false, i as nat)),
                        ));
                        lemma_deno_scan_stays(names, contents, (i + 1) as nat, names.len());
                    }
                    let files: Vec<ArchiveFile> = Vec::new();
                    assert(files_view(files@) == Seq::<(Seq<char>, Seq<u8>)>::empty());
                    return ArchiveExtraction {
                        files,
                        outcome: Err(
                            ArchiveError::ExtractFailed {
                                index: i,
                                file_name: String::from_str("deno.exe"),
                                detail,
                            },
                        ),
                    };
                },
            };
            proof {
                assert(deno_scan(names, contents, (i + 1) as nat) == (
                    Some(data@),
                    None::<(bool, nat)>,
                ));
                lemma_deno_scan_stays(names, contents, (i + 1) as nat, names.len());
            }
            let mut files: Vec<ArchiveFile> = Vec::new();
            push_file(&mut files, String::from_str("deno.exe"), data);
            assert(files_view(files@) == seq![("deno.exe"@, data@)]);
            return ArchiveExtraction { files, outcome: Ok(()) };
        }
    }
    let files: Vec<ArchiveFile> = Vec::new();
    assert(files_view(files@) == Seq::<(Seq<char>, Seq<u8>)>::empty());
    ArchiveExtraction { files, outcome: Err(ArchiveError::Missing) }
}

/// The name of the tool an archive installs, as messages give it.
pub open spec fn kind_name(kind: ArchiveKind) -> Seq<char> {
    match kind {
        ArchiveKind::Ffmpeg => "ffmpeg"@,
        ArchiveKind::Deno => "Deno"@,
    }
}

/// The executable an archive must hold.
pub open spec fn kind_executable(kind: ArchiveKind) -> Seq<char> {
    match kind {
        ArchiveKind::Ffmpeg => "ffmpeg.exe"@,
        ArchiveKind::Deno => "deno.exe"@,
    }
}

/// The message for an unpacking that stopped.
pub open spec fn archive_error_text(kind: ArchiveKind, error: ArchiveError) -> Seq<char> {
    match error {
        ArchiveError::OpenFailed { detail } => "Unable to read "@ + kind_name(kind) + " archive: "@
            + detail@,
        ArchiveError::EntryUnreadable { detail, .. } => "Unable to read "@ + kind_name(kind)
            + " archive entry: "@ + detail@,
        ArchiveError::ExtractFailed { file_name, detail, .. } => "Unable to extract "@
            + file_name@ + ": "@ + detail@,
        ArchiveError::Missing => "The downloaded "@ + kind_name(kind) + " archive did not contain "@
            + kind_executable(kind),
    }
}

fn lit_chars(v: &mut Vec<char>, lit: &str)
    ensures
        final(v)@ == old(v)@ + lit@,
{
    let l = chars_of(lit);
    push_all(v, &l);
}

/// The message for an unpacking that stopped.
pub fn archive_error_message(kind: &ArchiveKind, error: &ArchiveError) -> (r: String)
    ensures
        r@ == archive_error_text(*kind, *error),
{
    let name = match kind {
        ArchiveKind::Ffmpeg => "ffmpeg",
        ArchiveKind::Deno => "Deno",
    };
    let exe = match kind {
        ArchiveKind::Ffmpeg => "ffmpeg.exe",
        ArchiveKind::Deno => "deno.exe",
    };
    let mut v: Vec<char> = Vec::new();
    match error {
        ArchiveError::OpenFailed { detail } => {
            lit_chars(&mut v, "Unable to read ");
            lit_chars(&mut v, name);
            lit_chars(&mut v, " archive: ");
            lit_chars(&mut v, detail.as_str());
        },
        ArchiveError::EntryUnreadable { detail, .. } => {
            lit_chars(&mut v, "Unable to read ");
            lit_chars(&mut v, name);
            lit_chars(&mut v, " archive entry: ");
            lit_chars(&mut v, detail.as_str());
        },
        ArchiveError::ExtractFailed { file_name, detail, .. } => {
            lit_chars(&mut v, "Unable to extract ");
            lit_chars(&mut v, file_name.as_str());
            lit_chars(&mut v, ": ");
            lit_chars(&mut v, detail.as_str());
        },
        ArchiveError::Missing => {
            lit_chars(&mut v, "The downloaded ");
            lit_chars(&mut v, name);
            lit_chars(&mut v, " archive did not contain ");
            lit_chars(&mut v, exe);
        },
    }
    string_of(&v)
}

} // verus!
