//! The decisions of two searches of the file system: for the workspace that
//! holds Obelisk beside the application, and for an executable below a
//! directory. The caller looks at the file system; these functions say where to
//! look next and what was found.
use vstd::prelude::*;
use crate::paths::{joined_path, final_component, parent_path, path_join, path_file_name, path_parent};
use crate::text::{chars_of, chars_eq_str};

verus! {

// ---------------------------------------------------------------------------
// The workspace root
// ---------------------------------------------------------------------------

/// Where the search for the workspace root stands: about to test `ancestor`,
/// an ancestor of the start at index `start`, or finished.
pub enum RootSearch {
    Probe { start: usize, ancestor: String },
    Done(Option<String>),
}

/// The directories whose presence makes `ancestor` the workspace root: its
/// `obelisk` directory and the application's own directory.
pub fn workspace_markers(ancestor: &str, app_slug: &str) -> (r: (String, String))
    ensures
        r.0@ == joined_path(ancestor@, "obelisk"@),
        r.1@ == joined_path(ancestor@, app_slug@),
{
    (path_join(ancestor, "obelisk"), path_join(ancestor, app_slug))
}

/// The search starts with the first start directory itself, or finds nothing
/// when there is none.
pub fn root_search_begin(starts: &Vec<String>) -> (r: RootSearch)
    ensures
        starts.len() == 0 ==> r matches RootSearch::Done(None),
        starts.len() > 0 ==> (r matches RootSearch::Probe { start, ancestor } && start == 0
            && ancestor@ == starts[0]@),
{
    if starts.len() == 0 {
        RootSearch::Done(None)
    } else {
        RootSearch::Probe { start: 0, ancestor: starts[0].clone() }
    }
}

/// One step of the search, once the caller has tested the markers of
/// `ancestor`: it is the root when both are directories; otherwise the search
/// goes on with its parent, and past the last ancestor of one start with the
/// next start, until the starts run out.
pub fn root_search_step(starts: &Vec<String>, start: usize, ancestor: &str, markers_found: bool) -> (r:
    RootSearch)
    requires
        start < starts.len(),
    ensures
        markers_found ==> (r matches RootSearch::Done(Some(root)) && root@ == ancestor@),
        !markers_found ==> match parent_path(ancestor@) {
            Some(p) => (r matches RootSearch::Probe { start: s, ancestor: a } && s == start && a@
                == p),
            None => if start + 1 < starts.len() {
                (r matches RootSearch::Probe { start: s, ancestor: a } && s == start + 1 && a@
                    == starts[start + 1]@)
            } else {
                r matches RootSearch::Done(None)
            },
        },
{
    if markers_found {
        return RootSearch::Done(Some(ancestor.to_string()));
    }
    match path_parent(ancestor) {
        Some(p) => RootSearch::Probe { start, ancestor: p },
        None => if start + 1 < starts.len() {
            RootSearch::Probe { start: start + 1, ancestor: starts[start + 1].clone() }
        } else {
            RootSearch::Done(None)
        },
    }
}

// ---------------------------------------------------------------------------
// An executable below a directory
// ---------------------------------------------------------------------------

/// A directory still to be searched, with how many levels the search may still
/// go down from it (itself included).
pub struct PendingDir {
    pub path: String,
    pub depth: usize,
}

/// An entry of a directory as the caller read it: its path and whether it is a
/// directory.
pub struct DirEntryInfo {
    pub path: String,
    pub is_dir: bool,
}

/// The pending directories as text and depth, the next one last.
pub open spec fn pending_view(s: Seq<PendingDir>) -> Seq<(Seq<char>, usize)> {
    s.map_values(|d: PendingDir| (d.path@, d.depth))
}

/// The entries as text and directory flag.
pub open spec fn entries_view(s: Seq<DirEntryInfo>) -> Seq<(Seq<char>, bool)> {
    s.map_values(|e: DirEntryInfo| (e.path@, e.is_dir))
}

/// An entry the search goes down into: a directory not named `node_modules`.
pub open spec fn searchable_entry(entry: (Seq<char>, bool)) -> bool {
    entry.1 && final_component(entry.0) != Some("node_modules"@)
}

/// The searchable entries, each with `depth`, in reverse order, so that the
/// first of them is searched first.
pub open spec fn pushed_entries(entries: Seq<(Seq<char>, bool)>, depth: usize) -> Seq<(Seq<char>, usize)>
    decreases entries.len(),
{
    if entries.len() == 0 {
        Seq::empty()
    } else {
        let rest = pushed_entries(entries.drop_first(), depth);
        if searchable_entry(entries[0]) {
            rest.push((entries[0].0, depth))
        } else {
            rest
        }
    }
}

/// The pending directories once those with no depth left are dropped from the
/// top, and the one to search next.
pub open spec fn next_pending(s: Seq<(Seq<char>, usize)>) -> (Seq<(Seq<char>, usize)>, Option<(Seq<char>, usize)>)
    decreases s.len(),
{
    if s.len() == 0 {
        (s, None)
    } else if s.last().1 == 0 {
        next_pending(s.drop_last())
    } else {
        (s.drop_last(), Some(s.last()))
    }
}

/// The search below `root` starts with `root` itself.
pub fn exe_search_begin(root: String, max_depth: usize) -> (r: Vec<PendingDir>)
    ensures
        pending_view(r@) == seq![(root@, max_depth)],
{
    let mut r: Vec<PendingDir> = Vec::new();
    r.push(PendingDir { path: root, depth: max_depth });
    assert(pending_view(r@) =~= seq![(root@, max_depth)]);
    r
}

/// The directory to search next, skipping those that the depth limit leaves
/// out; `None` when the search is over without a find.
pub fn exe_search_next(pending: &mut Vec<PendingDir>) -> (r: Option<PendingDir>)
    ensures
        pending_view(final(pending)@) == next_pending(pending_view(old(pending)@)).0,
        r is Some <==> next_pending(pending_view(old(pending)@)).1 is Some,
        r matches Some(d) ==> next_pending(pending_view(old(pending)@)).1 == Some((d.path@, d.depth)),
        r matches Some(d) ==> d.depth > 0,
{
    loop
        invariant
            next_pending(pending_view(pending@)) == next_pending(pending_view(old(pending)@)),
        decreases pending.len(),
    {
        let ghost before = pending_view(pending@);
        match pending.pop() {
            None => {
                assert(before.len() == 0);
                return None;
            },
            Some(d) => {
                assert(before.drop_last() == pending_view(pending@));
                assert(before.last() == (d.path@, d.depth));
                if d.depth > 0 {
                    return Some(d);
                }
            },
        }
    }
}

/// The path of the executable directly in `dir`.
pub fn exe_direct_path(dir: &str, executable: &str) -> (r: String)
    ensures
        r@ == joined_path(dir@, executable@),
{
    path_join(dir, executable)
}

/// Whether the search goes down into an entry: a directory not named
/// `node_modules`.
pub fn is_searchable_entry(entry: &DirEntryInfo) -> (r: bool)
    ensures
        r == searchable_entry((entry.path@, entry.is_dir)),
{
    if !entry.is_dir {
        return false;
    }
    match path_file_name(entry.path.as_str()) {
        Some(name) => {
            let cs = chars_of(name.as_str());
            let skip = chars_eq_str(&cs, "node_modules");
            proof {
                reveal_strlit("node_modules");
            }
            !skip
        },
        None => true,
    }
}

/// After the caller has read the entries of a directory searched at `depth`
/// without finding the executable there, its searchable subdirectories are
/// pending with one level less, the first of them on top.
pub fn exe_search_descend(pending: &mut Vec<PendingDir>, depth: usize, entries: Vec<DirEntryInfo>)
    requires
        depth > 0,
    ensures
        pending_view(final(pending)@) == pending_view(old(pending)@) + pushed_entries(
            entries_view(entries@),
            (depth - 1) as usize,
        ),
{
    let ghost all = entries_view(entries@);
    let ghost n = entries@.len();
    let mut rest = entries;
    assert(all.subrange(n as int, n as int) =~= Seq::<(Seq<char>, bool)>::empty());
    assert(pending_view(pending@) =~= pending_view(old(pending)@) + pushed_entries(
        all.subrange(n as int, n as int),
        (depth - 1) as usize,
    ));
    loop
        invariant
            depth > 0,
            all == entries_view(entries@),
            n == all.len(),
            rest@.len() <= n,
            entries_view(rest@) == all.subrange(0, rest@.len() as int),
            pending_view(pending@) == pending_view(old(pending)@) + pushed_entries(
                all.subrange(rest@.len() as int, n as int),
                (depth - 1) as usize,
            ),
        decreases rest@.len(),
    {
        let ghost k = rest@.len();
        let ghost snapshot = rest@;
        match rest.pop() {
            None => {
                assert(k == 0);
                assert(all.subrange(0, n as int) =~= all);
                assert(all == entries_view(entries@));
                return ;
            },
            Some(e) => {
                let ghost i = k - 1;
                assert(snapshot == rest@.push(e));
                assert(all[i as int] == entries_view(snapshot)[i as int]);
                assert(entries_view(rest@) =~= all.subrange(0, i as int)) by {
                    assert forall|j: int| 0 <= j < i implies entries_view(rest@)[j] == all[j] by {
                        assert(rest@[j] == snapshot[j]);
                        assert(entries_view(snapshot)[j] == all[j]);
                    }
                }
                assert(all.subrange(i as int, n as int).drop_first() =~= all.subrange(
                    k as int,
                    n as int,
                ));
                let ghost before = pending_view(pending@);
                if is_searchable_entry(&e) {
                    pending.push(PendingDir { path: e.path, depth: depth - 1 });
                    assert(pending_view(pending@) =~= before.push((e.path@, (depth - 1) as usize)));
                }
            },
        }
    }
}

} // verus!
