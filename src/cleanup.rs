//! Which entries of the unpacked tree are removed once the students'
//! archives have been unpacked.

use crate::reorganize::DELIVERABLES;
use crate::text::str_eq;
use vstd::prelude::*;

verus! {

/// Name of the platform-metadata directories that are removed after unpacking.
pub const MACOSX: &'static str = "__MACOSX";

/// The kind of a directory entry.
#[derive(Debug, Clone, Copy, PartialEq, Eq, Structural)]
pub enum EntryKind {
    File,
    Directory,
    /// Neither a regular file nor a directory (a dangling link, a socket).
    Other,
}

/// What the final cleanup does with one entry at the top of the destination.
#[derive(Debug, Clone, Copy, PartialEq, Eq, Structural)]
pub enum Cleanup {
    Keep,
    RemoveFile,
    RemoveTree,
}

/// Every file goes, and every directory but `deliverables`.
pub open spec fn cleanup_of(name: Seq<char>, kind: EntryKind) -> Cleanup {
    match kind {
        EntryKind::Directory => if name == DELIVERABLES@ {
            Cleanup::Keep
        } else {
            Cleanup::RemoveTree
        },
        EntryKind::File => Cleanup::RemoveFile,
        EntryKind::Other => Cleanup::Keep,
    }
}

/// What the final cleanup does with the top-level entry `name`.
pub fn top_level_cleanup(name: &str, kind: EntryKind) -> (r: Cleanup)
    ensures
        r == cleanup_of(name@, kind),
{
    match kind {
        EntryKind::Directory => if str_eq(name, DELIVERABLES) {
            Cleanup::Keep
        } else {
            Cleanup::RemoveTree
        },
        EntryKind::File => Cleanup::RemoveFile,
        EntryKind::Other => Cleanup::Keep,
    }
}

/// Of the files and directories at the top of the destination, the cleanup
/// keeps exactly the directory `deliverables`.
pub proof fn lemma_only_deliverables_remain(name: Seq<char>, kind: EntryKind)
    requires
        kind != EntryKind::Other,
    ensures
        cleanup_of(name, kind) == Cleanup::Keep <==> (kind == EntryKind::Directory && name
            == DELIVERABLES@),
{
}

/// One entry of a directory tree, by its path's components below the root.
pub struct TreeEntry {
    pub components: Vec<String>,
    pub is_dir: bool,
}

/// The components of an entry's path.
pub open spec fn path_of(e: TreeEntry) -> Seq<Seq<char>> {
    e.components@.map_values(|c: String| c@)
}

/// Some component of `path` before its last is `__MACOSX`.
pub open spec fn below_macosx(path: Seq<Seq<char>>) -> bool {
    exists|j: int| 0 <= j < path.len() - 1 && path[j] == MACOSX@
}

/// A `__MACOSX` directory that no other `__MACOSX` directory contains: the
/// recursive walk removes it whole and never looks inside.
pub open spec fn is_macosx_root(e: TreeEntry) -> bool {
    let p = path_of(e);
    &&& e.is_dir
    &&& p.len() > 0
    &&& p.last() == MACOSX@
    &&& !below_macosx(p)
}

/// The indices, in order, of the entries that are `__MACOSX` roots.
pub open spec fn macosx_root_indices(entries: Seq<TreeEntry>) -> Seq<usize>
    decreases entries.len(),
{
    if entries.len() == 0 {
        Seq::empty()
    } else if is_macosx_root(entries.last()) {
        macosx_root_indices(entries.drop_last()).push((entries.len() - 1) as usize)
    } else {
        macosx_root_indices(entries.drop_last())
    }
}

/// `prefix` is a leading part of `path`.
pub open spec fn is_prefix(prefix: Seq<Seq<char>>, path: Seq<Seq<char>>) -> bool {
    prefix.len() <= path.len() && path.take(prefix.len() as int) == prefix
}

/// Whether `entry` is a `__MACOSX` root (see `is_macosx_root`).
fn is_macosx_root_entry(entry: &TreeEntry) -> (r: bool)
    ensures
        r == is_macosx_root(*entry),
{
    let n = entry.components.len();
    if !entry.is_dir || n == 0 {
        return false;
    }
    if !str_eq(entry.components[n - 1].as_str(), MACOSX) {
        return false;
    }
    let ghost p = path_of(*entry);
    let mut j: usize = 0;
    while j < n - 1
        invariant
            n == entry.components.len(),
            n > 0,
            j < n,
            p == path_of(*entry),
            forall|k: int| 0 <= k < j ==> p[k] != MACOSX@,
        decreases n - 1 - j,
    {
        if str_eq(entry.components[j].as_str(), MACOSX) {
            assert(p[j as int] == MACOSX@);
            return false;
        }
        j = j + 1;
    }
    true
}

/// The entries of a tree listing that the removal of `__MACOSX` directories
/// deletes whole: each directory named `__MACOSX` that lies in no other one.
pub fn macosx_removals(entries: &Vec<TreeEntry>) -> (r: Vec<usize>)
    ensures
        r@ == macosx_root_indices(entries@),
{
    let mut r: Vec<usize> = Vec::new();
    let mut i: usize = 0;
    while i < entries.len()
        invariant
            i <= entries.len(),
            r@ == macosx_root_indices(entries@.take(i as int)),
        decreases entries.len() - i,
    {
        assert(entries@.take(i + 1).drop_last() == entries@.take(i as int));
        if is_macosx_root_entry(&entries[i]) {
            r.push(i);
        }
        i = i + 1;
    }
    assert(entries@.take(entries.len() as int) == entries@);
    r
}

/// Each index that `macosx_root_indices` gives points at a `__MACOSX` root.
pub proof fn lemma_macosx_root_indices(entries: Seq<TreeEntry>)
    requires
        entries.len() <= usize::MAX,
    ensures
        forall|k: int|
            0 <= k < macosx_root_indices(entries).len() ==> {
                let i = #[trigger] macosx_root_indices(entries)[k];
                &&& i < entries.len()
                &&& is_macosx_root(entries[i as int])
            },
    decreases entries.len(),
{
    if entries.len() > 0 {
        let t = entries.drop_last();
        lemma_macosx_root_indices(t);
        assert forall|k: int| 0 <= k < macosx_root_indices(entries).len() implies {
            let i = #[trigger] macosx_root_indices(entries)[k];
            &&& i < entries.len()
            &&& is_macosx_root(entries[i as int])
        } by {
            if k < macosx_root_indices(t).len() {
                assert(macosx_root_indices(entries)[k] == macosx_root_indices(t)[k]);
                assert(entries[macosx_root_indices(t)[k] as int] == t[macosx_root_indices(
                    t,
                )[k] as int]);
            } else {
                assert(is_macosx_root(entries.last()));
                assert(macosx_root_indices(entries) == macosx_root_indices(t).push(
                    (entries.len() - 1) as usize,
                ));
                assert(macosx_root_indices(entries)[k] == entries.len() - 1);
                assert(entries[entries.len() - 1] == entries.last());
            }
        }
    }
}

/// Removing the `__MACOSX` roots leaves every entry alone whose path holds no
/// `__MACOSX` component: no removed directory is a leading part of its path.
pub proof fn lemma_macosx_removal_spares_others(entries: Seq<TreeEntry>, other: Seq<Seq<char>>)
    requires
        entries.len() <= usize::MAX,
        forall|j: int| 0 <= j < other.len() ==> other[j] != MACOSX@,
    ensures
        forall|k: int|
            0 <= k < macosx_root_indices(entries).len() ==> !is_prefix(
                path_of(entries[#[trigger] macosx_root_indices(entries)[k] as int]),
                other,
            ),
{
    lemma_macosx_root_indices(entries);
    assert forall|k: int| 0 <= k < macosx_root_indices(entries).len() implies !is_prefix(
        path_of(entries[#[trigger] macosx_root_indices(entries)[k] as int]),
        other,
    ) by {
        let p = path_of(entries[macosx_root_indices(entries)[k] as int]);
        if is_prefix(p, other) {
            assert(other.take(p.len() as int)[p.len() - 1] == other[p.len() - 1]);
        }
    }
}

} // verus!
