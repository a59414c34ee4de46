//! Every operation on the namespace keeps it well formed.

use crate::names::{lemma_first_index_of, lemma_name_matches_itself, name_cells};
use crate::tree_spec::{
    count_live, distinct_entries, no_entries, DirView, FileView, NamespaceView, BODY_SIZE,
    CLEAR_MARKER_DIRECTORY, CLEAR_MARKER_FILE, MAX_LINES, MAX_SIZE_FILES,
    MAX_SIZE_FILES_IN_DIRECTORY, MAX_SIZE_OF_CHILDREN_DIRECTORIES, MAX_SIZE_OF_DIRECTORIES,
};
use vstd::prelude::*;

verus! {

/// No more entries are in use than there are entries.
pub proof fn lemma_count_live_bound(entries: Seq<usize>, free: usize)
    ensures
        count_live(entries, free) <= entries.len(),
    decreases entries.len(),
{
    if entries.len() > 0 {
        lemma_count_live_bound(entries.drop_last(), free);
    }
}

/// Unused entries count as none in use.
pub proof fn lemma_count_live_none(len: int, free: usize)
    requires
        0 <= len,
    ensures
        count_live(no_entries(len, free), free) == 0,
    decreases len,
{
    if len > 0 {
        lemma_count_live_none(len - 1, free);
        assert(no_entries(len, free).drop_last() =~= no_entries(len - 1, free));
    }
}

/// Where one entry is in use, the count is not zero.
pub proof fn lemma_count_live_positive(entries: Seq<usize>, free: usize, pos: int)
    requires
        0 <= pos < entries.len(),
        entries[pos] != free,
    ensures
        count_live(entries, free) > 0,
    decreases entries.len(),
{
    if pos < entries.len() - 1 {
        lemma_count_live_positive(entries.drop_last(), free, pos);
    }
}

/// Where the count is zero, every entry is unused.
pub proof fn lemma_count_live_zero(entries: Seq<usize>, free: usize)
    requires
        count_live(entries, free) == 0,
    ensures
        forall|p: int| 0 <= p < entries.len() ==> entries[p] == free,
{
    assert forall|p: int| 0 <= p < entries.len() implies entries[p] == free by {
        if entries[p] != free {
            lemma_count_live_positive(entries, free, p);
        }
    }
}

/// Replacing one entry changes the count by what the old and the new entry
/// count for.
pub proof fn lemma_count_live_update(entries: Seq<usize>, free: usize, pos: int, value: usize)
    requires
        0 <= pos < entries.len(),
    ensures
        count_live(entries.update(pos, value), free) + (if entries[pos] != free {
            1nat
        } else {
            0nat
        }) == count_live(entries, free) + (if value != free {
            1nat
        } else {
            0nat
        }),
    decreases entries.len(),
{
    let updated = entries.update(pos, value);
    if pos == entries.len() - 1 {
        assert(updated.drop_last() =~= entries.drop_last());
    } else {
        lemma_count_live_update(entries.drop_last(), free, pos, value);
        assert(updated.drop_last() =~= entries.drop_last().update(pos, value));
    }
}

/// Entry `p` of the child entries of directory `i` is unused in `after`, or
/// holds what it held in `ns`, a directory that kept its name.
spec fn entry_kept(ns: NamespaceView, after: NamespaceView, i: int, p: int) -> bool {
    let c = after.dirs[i].child_indexes[p];
    c != CLEAR_MARKER_DIRECTORY ==> c == ns.dirs[i].child_indexes[p] && after.dirs[c as int].name
        == ns.dirs[c as int].name
}

/// The new name `name` is not the name of the directory in entry `p` of
/// the child entries of `dir`.
spec fn name_unused(ns: NamespaceView, dir: int, p: int, name: Seq<u8>) -> bool {
    let c = ns.dirs[dir].child_indexes[p];
    c != CLEAR_MARKER_DIRECTORY ==> ns.dirs[c as int].name != name_cells(name)
}

proof fn lemma_names_kept(ns: NamespaceView, after: NamespaceView, i: int)
    requires
        ns.dir_wf(i),
        ns.dirs[i].index == i,
        forall|p: int|
            0 <= p < MAX_SIZE_OF_CHILDREN_DIRECTORIES ==> #[trigger] entry_kept(ns, after, i, p),
    ensures
        forall|p: int, q: int|
            0 <= p < MAX_SIZE_OF_CHILDREN_DIRECTORIES && 0 <= q < MAX_SIZE_OF_CHILDREN_DIRECTORIES
                && p != q ==> #[trigger] after.child_names_differ(i, p, q),
{
    assert forall|p: int, q: int|
        0 <= p < MAX_SIZE_OF_CHILDREN_DIRECTORIES && 0 <= q < MAX_SIZE_OF_CHILDREN_DIRECTORIES
            && p != q implies #[trigger] after.child_names_differ(i, p, q) by {
        assert(entry_kept(ns, after, i, p));
        assert(entry_kept(ns, after, i, q));
        assert(ns.child_names_differ(i, p, q));
    }
}

/// The namespace at the start is well formed.
pub proof fn lemma_initial_wf()
    ensures
        NamespaceView::initial().wf(),
{
    let ns = NamespaceView::initial();
    lemma_count_live_none(MAX_SIZE_OF_CHILDREN_DIRECTORIES as int, CLEAR_MARKER_DIRECTORY);
    assert forall|i: int| 0 <= i < MAX_SIZE_OF_DIRECTORIES implies #[trigger] ns.dir_wf(i) by {
        assert forall|p: int|
            0 <= p < MAX_SIZE_OF_CHILDREN_DIRECTORIES
            implies #[trigger] ns.child_entry_wf(i, p) by {}
        assert forall|p: int|
            0 <= p < MAX_SIZE_FILES_IN_DIRECTORY implies #[trigger] ns.file_entry_wf(i, p) by {}
        assert forall|p: int, q: int|
            0 <= p < MAX_SIZE_OF_CHILDREN_DIRECTORIES && 0 <= q < MAX_SIZE_OF_CHILDREN_DIRECTORIES
                && p != q implies #[trigger] ns.child_names_differ(i, p, q) by {}
    }
    assert forall|f: int| 0 <= f < MAX_SIZE_FILES implies #[trigger] ns.file_wf(f) by {}
    let rank = Seq::new(MAX_SIZE_OF_DIRECTORIES as nat, |i: int| 0nat);
    assert(ns.ranked(rank)) by {
        assert forall|i: int|
            0 <= i < MAX_SIZE_OF_DIRECTORIES implies #[trigger] ns.rank_grows(rank, i) by {}
    }
}

/// `after` is `ns` with a new directory in the free slot `slot`, listed in
/// the unused entry `pos` of `dir`.
spec fn grown(
    ns: NamespaceView,
    after: NamespaceView,
    dir: int,
    slot: int,
    pos: int,
    name: Seq<u8>,
) -> bool {
    &&& ns.wf()
    &&& ns.dir_live(dir)
    &&& 0 < slot < MAX_SIZE_OF_DIRECTORIES
    &&& slot != dir
    &&& ns.dirs[slot].index == CLEAR_MARKER_DIRECTORY
    &&& 0 <= pos < MAX_SIZE_OF_CHILDREN_DIRECTORIES
    &&& ns.dirs[dir].child_indexes[pos] == CLEAR_MARKER_DIRECTORY
    &&& after.files == ns.files
    &&& after.dirs.len() == MAX_SIZE_OF_DIRECTORIES
    &&& after.dirs[slot] == DirView::fresh(slot, name, dir)
    &&& after.dirs[dir] == ns.dirs[dir].with_child(pos, slot)
    &&& forall|i: int|
        0 <= i < MAX_SIZE_OF_DIRECTORIES && i != slot && i != dir
        ==> #[trigger] after.dirs[i] == ns.dirs[i]
    &&& forall|p: int|
        0 <= p < MAX_SIZE_OF_CHILDREN_DIRECTORIES ==> #[trigger] name_unused(ns, dir, p, name)
}

proof fn lemma_grown_dir(
    ns: NamespaceView,
    after: NamespaceView,
    dir: int,
    slot: int,
    pos: int,
    name: Seq<u8>,
    i: int,
)
    requires
        grown(ns, after, dir, slot, pos, name),
        0 <= i < MAX_SIZE_OF_DIRECTORIES,
    ensures
        after.dir_wf(i),
{
    assert(ns.dir_wf(i));
    assert(ns.dir_wf(dir));
    if i == slot {
        lemma_count_live_none(MAX_SIZE_OF_CHILDREN_DIRECTORIES as int, CLEAR_MARKER_DIRECTORY);
        assert(after.dirs[dir].child_indexes[pos] == slot as usize);
        assert forall|p: int|
            0 <= p < MAX_SIZE_OF_CHILDREN_DIRECTORIES
            implies #[trigger] after.child_entry_wf(i, p) by {}
        assert forall|p: int|
            0 <= p < MAX_SIZE_FILES_IN_DIRECTORY implies #[trigger] after.file_entry_wf(i, p) by {}
        assert forall|p: int, q: int|
            0 <= p < MAX_SIZE_OF_CHILDREN_DIRECTORIES && 0 <= q < MAX_SIZE_OF_CHILDREN_DIRECTORIES
                && p != q implies #[trigger] after.child_names_differ(i, p, q) by {}
    } else if i == dir {
        lemma_count_live_bound(ns.dirs[dir].child_indexes, CLEAR_MARKER_DIRECTORY);
        lemma_count_live_update(
            ns.dirs[dir].child_indexes,
            CLEAR_MARKER_DIRECTORY,
            pos,
            slot as usize,
        );
        let j = ns.dirs[dir].parent_index as int;
        if dir != 0 {
            let w = choose|w: int|
                0 <= w < ns.dirs[j].child_indexes.len() && ns.dirs[j].child_indexes[w]
                    == dir as usize;
            assert(ns.child_entry_wf(j, w));
            assert(after.dirs[j].child_indexes[w] == dir as usize);
        }
        assert forall|p: int|
            0 <= p < MAX_SIZE_OF_CHILDREN_DIRECTORIES
            implies #[trigger] after.child_entry_wf(i, p) by {
            if p != pos {
                assert(ns.child_entry_wf(i, p));
            }
        }
        assert forall|p: int|
            0 <= p < MAX_SIZE_FILES_IN_DIRECTORY implies #[trigger] after.file_entry_wf(i, p) by {
            assert(ns.file_entry_wf(i, p));
        }
        assert(distinct_entries(after.dirs[i].child_indexes, CLEAR_MARKER_DIRECTORY)) by {
            let old_entries = ns.dirs[i].child_indexes;
            let entries = after.dirs[i].child_indexes;
            assert forall|p: int, q: int|
                0 <= p < entries.len() && 0 <= q < entries.len() && p != q && #[trigger] entries[p]
                    != CLEAR_MARKER_DIRECTORY implies entries[p] != #[trigger] entries[q] by {
                if p != pos {
                    assert(ns.child_entry_wf(i, p));
                    assert(entries[p] == old_entries[p]);
                }
                if q != pos {
                    assert(ns.child_entry_wf(i, q));
                    assert(entries[q] == old_entries[q]);
                }
            }
        }
        assert forall|p: int, q: int|
            0 <= p < MAX_SIZE_OF_CHILDREN_DIRECTORIES && 0 <= q < MAX_SIZE_OF_CHILDREN_DIRECTORIES
                && p != q implies #[trigger] after.child_names_differ(i, p, q) by {
            assert(ns.child_names_differ(i, p, q));
            assert(name_unused(ns, dir, p, name));
            assert(name_unused(ns, dir, q, name));
            if p != pos {
                assert(ns.child_entry_wf(i, p));
            }
            if q != pos {
                assert(ns.child_entry_wf(i, q));
            }
        }
    } else if ns.dirs[i].index == i {
        let j = ns.dirs[i].parent_index as int;
        assert(ns.dir_wf(j));
        if i != 0 {
            let w = choose|w: int|
                0 <= w < ns.dirs[j].child_indexes.len() && ns.dirs[j].child_indexes[w]
                    == i as usize;
            assert(after.dirs[j].child_indexes[w] == i as usize);
        }
        assert forall|p: int|
            0 <= p < MAX_SIZE_OF_CHILDREN_DIRECTORIES
            implies #[trigger] after.child_entry_wf(i, p) by {
            assert(ns.child_entry_wf(i, p));
        }
        assert forall|p: int|
            0 <= p < MAX_SIZE_FILES_IN_DIRECTORY implies #[trigger] after.file_entry_wf(i, p) by {
            assert(ns.file_entry_wf(i, p));
        }
        assert forall|p: int|
            0 <= p < MAX_SIZE_OF_CHILDREN_DIRECTORIES
            implies #[trigger] entry_kept(ns, after, i, p) by {
            assert(ns.child_entry_wf(i, p));
        }
        lemma_names_kept(ns, after, i);
    }
}

proof fn lemma_grown_wf(
    ns: NamespaceView,
    after: NamespaceView,
    dir: int,
    slot: int,
    pos: int,
    name: Seq<u8>,
)
    requires
        grown(ns, after, dir, slot, pos, name),
    ensures
        after.wf(),
{
    assert(ns.dir_wf(0));
    assert forall|i: int| 0 <= i < MAX_SIZE_OF_DIRECTORIES implies #[trigger] after.dir_wf(i) by {
        lemma_grown_dir(ns, after, dir, slot, pos, name, i);
    }
    assert forall|f: int| 0 <= f < MAX_SIZE_FILES implies #[trigger] after.file_wf(f) by {
        assert(ns.file_wf(f));
        if ns.files[f].index == f {
            let folder = ns.files[f].folder_index as int;
            assert(after.dirs[folder].files_indexes == ns.dirs[folder].files_indexes);
        }
    }
    let rank = choose|rank: Seq<nat>| ns.ranked(rank);
    let raised = rank.update(slot, rank[dir] + 1);
    assert(after.ranked(raised)) by {
        assert forall|i: int|
            0 <= i < MAX_SIZE_OF_DIRECTORIES implies #[trigger] after.rank_grows(raised, i) by {
            assert(ns.rank_grows(rank, i));
            assert(ns.dir_wf(i));
        }
    }
}

/// Creating a directory keeps the namespace well formed.
pub proof fn lemma_create_child_directory_wf(ns: NamespaceView, dir: int, name: Seq<u8>)
    requires
        ns.wf(),
    ensures
        ns.create_child_directory(dir, name).wf(),
{
    if ns.create_child_directory_result(dir, name) is Ok {
        let after = ns.create_child_directory(dir, name);
        let slot = ns.free_dir_slot();
        let pos = ns.free_child_entry(dir);
        lemma_first_index_of(ns.dir_indexes(), CLEAR_MARKER_DIRECTORY, 0);
        lemma_first_index_of(ns.dirs[dir].child_indexes, CLEAR_MARKER_DIRECTORY, 0);
        assert(ns.dir_indexes()[slot] == CLEAR_MARKER_DIRECTORY);
        assert(ns.dir_wf(dir));
        lemma_first_index_of(ns.child_hits(dir, name), true, 0);
        lemma_name_matches_itself(name);
        assert forall|p: int|
            0 <= p < MAX_SIZE_OF_CHILDREN_DIRECTORIES
            implies #[trigger] name_unused(ns, dir, p, name) by {
            assert(!ns.child_hits(dir, name)[p]);
        }
        assert(grown(ns, after, dir, slot, pos, name));
        lemma_grown_wf(ns, after, dir, slot, pos, name);
    }
}

/// `after` is `ns` without the empty directory `t`, which entry `pos` of
/// `dir` listed.
spec fn shrunk(ns: NamespaceView, after: NamespaceView, dir: int, t: int, pos: int) -> bool {
    &&& ns.wf()
    &&& ns.dir_live(dir)
    &&& 0 <= pos < MAX_SIZE_OF_CHILDREN_DIRECTORIES
    &&& ns.dirs[dir].child_indexes[pos] == t
    &&& 0 < t < MAX_SIZE_OF_DIRECTORIES
    &&& t != dir
    &&& ns.dirs[t].index == t
    &&& ns.dirs[t].parent_index == dir
    &&& ns.dirs[t].child_count == 0
    &&& count_live(ns.dirs[t].files_indexes, CLEAR_MARKER_FILE) == 0
    &&& after.files == ns.files
    &&& after.dirs.len() == MAX_SIZE_OF_DIRECTORIES
    &&& after.dirs[t] == DirView::free()
    &&& after.dirs[dir] == ns.dirs[dir].without_child(pos)
    &&& forall|i: int|
        0 <= i < MAX_SIZE_OF_DIRECTORIES && i != t && i != dir
        ==> #[trigger] after.dirs[i] == ns.dirs[i]
}

proof fn lemma_shrunk_empty(ns: NamespaceView, after: NamespaceView, dir: int, t: int, pos: int)
    requires
        shrunk(ns, after, dir, t, pos),
    ensures
        forall|i: int|
            0 <= i < MAX_SIZE_OF_DIRECTORIES && ns.dirs[i].index == i && i != 0
            ==> #[trigger] ns.dirs[i].parent_index != t,
        forall|f: int|
            0 <= f < MAX_SIZE_FILES && ns.files[f].index == f
            ==> #[trigger] ns.files[f].folder_index != t,
{
    assert(ns.dir_wf(t));
    lemma_count_live_zero(ns.dirs[t].child_indexes, CLEAR_MARKER_DIRECTORY);
    lemma_count_live_zero(ns.dirs[t].files_indexes, CLEAR_MARKER_FILE);
    assert forall|i: int|
        0 <= i < MAX_SIZE_OF_DIRECTORIES && ns.dirs[i].index == i && i != 0
        implies #[trigger] ns.dirs[i].parent_index != t by {
        assert(ns.dir_wf(i));
        if ns.dirs[i].parent_index == t {
            assert(ns.dirs[t].child_indexes.contains(i as usize));
        }
    }
    assert forall|f: int|
        0 <= f < MAX_SIZE_FILES && ns.files[f].index == f
        implies #[trigger] ns.files[f].folder_index != t by {
        assert(ns.file_wf(f));
        if ns.files[f].folder_index == t {
            assert(ns.dirs[t].files_indexes.contains(f as usize));
        }
    }
}

proof fn lemma_shrunk_dir(
    ns: NamespaceView,
    after: NamespaceView,
    dir: int,
    t: int,
    pos: int,
    i: int,
)
    requires
        shrunk(ns, after, dir, t, pos),
        0 <= i < MAX_SIZE_OF_DIRECTORIES,
    ensures
        after.dir_wf(i),
{
    assert(ns.dir_wf(i));
    assert(ns.dir_wf(dir));
    assert(ns.dir_wf(0));
    lemma_shrunk_empty(ns, after, dir, t, pos);
    if i == t {
    } else if ns.dirs[i].index == i {
        let j = ns.dirs[i].parent_index as int;
        assert(ns.dir_wf(j));
        assert(j != t);
        if i != 0 {
            let w = choose|w: int|
                0 <= w < ns.dirs[j].child_indexes.len() && ns.dirs[j].child_indexes[w]
                    == i as usize;
            assert(after.dirs[j].child_indexes[w] == i as usize);
        }
        if i == dir {
            lemma_count_live_positive(ns.dirs[dir].child_indexes, CLEAR_MARKER_DIRECTORY, pos);
            lemma_count_live_update(
                ns.dirs[dir].child_indexes,
                CLEAR_MARKER_DIRECTORY,
                pos,
                CLEAR_MARKER_DIRECTORY,
            );
            assert(distinct_entries(after.dirs[i].child_indexes, CLEAR_MARKER_DIRECTORY)) by {
                let old_entries = ns.dirs[i].child_indexes;
                let entries = after.dirs[i].child_indexes;
                assert forall|p: int, q: int|
                    0 <= p < entries.len() && 0 <= q < entries.len() && p != q
                        && #[trigger] entries[p] != CLEAR_MARKER_DIRECTORY implies entries[p]
                    != #[trigger] entries[q] by {
                    assert(entries[p] == old_entries[p]);
                    if q != pos {
                        assert(entries[q] == old_entries[q]);
                    }
                }
            }
        }
        assert forall|p: int|
            0 <= p < MAX_SIZE_OF_CHILDREN_DIRECTORIES
            implies #[trigger] after.child_entry_wf(i, p) by {
            assert(ns.child_entry_wf(i, p));
            if i == dir && p != pos {
                assert(ns.dirs[dir].child_indexes[p] == after.dirs[dir].child_indexes[p]);
                if ns.dirs[dir].child_indexes[p] != CLEAR_MARKER_DIRECTORY {
                    assert(ns.dirs[dir].child_indexes[p] != ns.dirs[dir].child_indexes[pos]);
                }
            }
        }
        assert forall|p: int|
            0 <= p < MAX_SIZE_FILES_IN_DIRECTORY implies #[trigger] after.file_entry_wf(i, p) by {
            assert(ns.file_entry_wf(i, p));
        }
        assert forall|p: int|
            0 <= p < MAX_SIZE_OF_CHILDREN_DIRECTORIES
            implies #[trigger] entry_kept(ns, after, i, p) by {
            assert(ns.child_entry_wf(i, p));
            if i == dir && p != pos {
                assert(ns.dirs[dir].child_indexes[p] == after.dirs[dir].child_indexes[p]);
                if ns.dirs[dir].child_indexes[p] != CLEAR_MARKER_DIRECTORY {
                    assert(ns.dirs[dir].child_indexes[p] != ns.dirs[dir].child_indexes[pos]);
                }
            }
        }
        lemma_names_kept(ns, after, i);
    }
}

proof fn lemma_shrunk_wf(ns: NamespaceView, after: NamespaceView, dir: int, t: int, pos: int)
    requires
        shrunk(ns, after, dir, t, pos),
    ensures
        after.wf(),
{
    assert(ns.dir_wf(0));
    lemma_shrunk_empty(ns, after, dir, t, pos);
    assert forall|i: int| 0 <= i < MAX_SIZE_OF_DIRECTORIES implies #[trigger] after.dir_wf(i) by {
        lemma_shrunk_dir(ns, after, dir, t, pos, i);
    }
    assert forall|f: int| 0 <= f < MAX_SIZE_FILES implies #[trigger] after.file_wf(f) by {
        assert(ns.file_wf(f));
        if ns.files[f].index == f {
            let folder = ns.files[f].folder_index as int;
            assert(after.dirs[folder].files_indexes == ns.dirs[folder].files_indexes);
        }
    }
    let rank = choose|rank: Seq<nat>| ns.ranked(rank);
    assert(after.ranked(rank)) by {
        assert forall|i: int|
            0 <= i < MAX_SIZE_OF_DIRECTORIES implies #[trigger] after.rank_grows(rank, i) by {
            assert(ns.rank_grows(rank, i));
        }
    }
}

/// Removing a directory keeps the namespace well formed.
pub proof fn lemma_remove_child_directory_wf(ns: NamespaceView, dir: int, name: Seq<u8>)
    requires
        ns.wf(),
    ensures
        ns.remove_child_directory(dir, name).wf(),
{
    if let Ok(Some(target)) = ns.remove_child_directory_result(dir, name) {
        let after = ns.remove_child_directory(dir, name);
        let t = target as int;
        let pos = ns.named_position(dir, name);
        assert(ns.dir_wf(dir));
        lemma_first_index_of(ns.named_hits(dir, name), true, 0);
        assert(ns.named_hits(dir, name)[pos]);
        assert(ns.child_entry_wf(dir, pos));
        assert(shrunk(ns, after, dir, t, pos));
        lemma_shrunk_wf(ns, after, dir, t, pos);
    }
}

/// A change to the records of files alone, which keeps each file's slot
/// mark and directory, the shape of its cells and the bound on its lines,
/// keeps the namespace well formed.
pub proof fn lemma_file_records_wf(ns: NamespaceView, files: Seq<FileView>)
    requires
        ns.wf(),
        files.len() == ns.files.len(),
        forall|f: int|
            0 <= f < files.len() ==> {
                &&& (#[trigger] files[f]).index == ns.files[f].index
                &&& files[f].folder_index == ns.files[f].folder_index
                &&& files[f].shape()
                &&& files[f].count_lines <= MAX_LINES
                &&& files[f].index == CLEAR_MARKER_FILE ==> files[f] == ns.files[f]
            },
    ensures
        (NamespaceView { files: files, ..ns }).wf(),
{
    let after = NamespaceView { files: files, ..ns };
    assert forall|i: int| 0 <= i < MAX_SIZE_OF_DIRECTORIES implies #[trigger] after.dir_wf(i) by {
        assert(ns.dir_wf(i));
        assert forall|p: int|
            0 <= p < MAX_SIZE_OF_CHILDREN_DIRECTORIES
            implies #[trigger] after.child_entry_wf(i, p) by {
            assert(ns.child_entry_wf(i, p));
        }
        assert forall|p: int|
            0 <= p < MAX_SIZE_FILES_IN_DIRECTORY implies #[trigger] after.file_entry_wf(i, p) by {
            assert(ns.file_entry_wf(i, p));
        }
        if ns.dirs[i].index == i {
            assert forall|p: int|
                0 <= p < MAX_SIZE_OF_CHILDREN_DIRECTORIES
                implies #[trigger] entry_kept(ns, after, i, p) by {}
            lemma_names_kept(ns, after, i);
        }
    }
    assert forall|f: int| 0 <= f < MAX_SIZE_FILES implies #[trigger] after.file_wf(f) by {
        assert(ns.file_wf(f));
    }
    let rank = choose|rank: Seq<nat>| ns.ranked(rank);
    assert(after.ranked(rank)) by {
        assert forall|i: int|
            0 <= i < MAX_SIZE_OF_DIRECTORIES implies #[trigger] after.rank_grows(rank, i) by {
            assert(ns.rank_grows(rank, i));
        }
    }
}

/// Counting a line keeps the namespace well formed.
pub proof fn lemma_add_line_wf(ns: NamespaceView, f: int)
    requires
        ns.wf(),
    ensures
        ns.add_line(f).wf(),
{
    if ns.file_live(f) {
        assert(ns.file_wf(f));
    }
    assert forall|g: int|
        0 <= g < MAX_SIZE_FILES implies (#[trigger] ns.add_line(f).files[g]).shape()
        && ns.add_line(f).files[g].count_lines <= MAX_LINES by {
        assert(ns.file_wf(g));
    }
    lemma_file_records_wf(ns, ns.add_line(f).files);
}

/// Resetting the lines keeps the namespace well formed.
pub proof fn lemma_reset_lines_wf(ns: NamespaceView, f: int)
    requires
        ns.wf(),
    ensures
        ns.reset_lines(f).wf(),
{
    assert forall|g: int|
        0 <= g < MAX_SIZE_FILES implies (#[trigger] ns.reset_lines(f).files[g]).shape()
        && ns.reset_lines(f).files[g].count_lines <= MAX_LINES by {
        assert(ns.file_wf(g));
    }
    lemma_file_records_wf(ns, ns.reset_lines(f).files);
}

/// Storing a body of the right size keeps the namespace well formed.
pub proof fn lemma_store_body_wf(ns: NamespaceView, f: int, chars: Seq<u8>)
    requires
        ns.wf(),
        chars.len() == BODY_SIZE,
    ensures
        ns.store_body(f, chars).wf(),
{
    assert forall|g: int|
        0 <= g < MAX_SIZE_FILES implies (#[trigger] ns.store_body(f, chars).files[g]).shape()
        && ns.store_body(f, chars).files[g].count_lines <= MAX_LINES by {
        assert(ns.file_wf(g));
    }
    lemma_file_records_wf(ns, ns.store_body(f, chars).files);
}

/// `after` is `ns` with a new file in the free slot `slot`, listed in the
/// unused entry `pos` of `dir`.
spec fn filed(
    ns: NamespaceView,
    after: NamespaceView,
    dir: int,
    slot: int,
    pos: int,
    name: Seq<u8>,
) -> bool {
    &&& ns.wf()
    &&& ns.dir_live(dir)
    &&& 0 <= slot < MAX_SIZE_FILES
    &&& ns.files[slot].index == CLEAR_MARKER_FILE
    &&& 0 <= pos < MAX_SIZE_FILES_IN_DIRECTORY
    &&& ns.dirs[dir].files_indexes[pos] == CLEAR_MARKER_FILE
    &&& after.files.len() == MAX_SIZE_FILES
    &&& after.dirs.len() == MAX_SIZE_OF_DIRECTORIES
    &&& after.files[slot] == FileView::fresh(slot, name, dir)
    &&& after.dirs[dir] == ns.dirs[dir].with_file(pos, slot)
    &&& forall|i: int|
        0 <= i < MAX_SIZE_OF_DIRECTORIES && i != dir ==> #[trigger] after.dirs[i] == ns.dirs[i]
    &&& forall|f: int|
        0 <= f < MAX_SIZE_FILES && f != slot ==> #[trigger] after.files[f] == ns.files[f]
}

proof fn lemma_filed_dir(
    ns: NamespaceView,
    after: NamespaceView,
    dir: int,
    slot: int,
    pos: int,
    name: Seq<u8>,
    i: int,
)
    requires
        filed(ns, after, dir, slot, pos, name),
        0 <= i < MAX_SIZE_OF_DIRECTORIES,
    ensures
        after.dir_wf(i),
{
    assert(ns.dir_wf(i));
    if ns.dirs[i].index == i {
        let j = ns.dirs[i].parent_index as int;
        assert(after.dirs[j].child_indexes == ns.dirs[j].child_indexes);
        assert forall|p: int|
            0 <= p < MAX_SIZE_OF_CHILDREN_DIRECTORIES
            implies #[trigger] entry_kept(ns, after, i, p) by {
            assert(ns.child_entry_wf(i, p));
        }
        lemma_names_kept(ns, after, i);
        assert forall|p: int|
            0 <= p < MAX_SIZE_OF_CHILDREN_DIRECTORIES
            implies #[trigger] after.child_entry_wf(i, p) by {
            assert(ns.child_entry_wf(i, p));
        }
        assert forall|p: int|
            0 <= p < MAX_SIZE_FILES_IN_DIRECTORY implies #[trigger] after.file_entry_wf(i, p) by {
            if i != dir || p != pos {
                assert(ns.file_entry_wf(i, p));
            }
        }
        if i == dir {
            assert(distinct_entries(after.dirs[i].files_indexes, CLEAR_MARKER_FILE)) by {
                let old_entries = ns.dirs[i].files_indexes;
                let entries = after.dirs[i].files_indexes;
                assert forall|p: int, q: int|
                    0 <= p < entries.len() && 0 <= q < entries.len() && p != q
                        && #[trigger] entries[p] != CLEAR_MARKER_FILE implies entries[p]
                    != #[trigger] entries[q] by {
                    if p != pos {
                        assert(ns.file_entry_wf(i, p));
                        assert(entries[p] == old_entries[p]);
                    }
                    if q != pos {
                        assert(ns.file_entry_wf(i, q));
                        assert(entries[q] == old_entries[q]);
                    }
                }
            }
        }
    }
}

proof fn lemma_filed_wf(
    ns: NamespaceView,
    after: NamespaceView,
    dir: int,
    slot: int,
    pos: int,
    name: Seq<u8>,
)
    requires
        filed(ns, after, dir, slot, pos, name),
    ensures
        after.wf(),
{
    assert(ns.dir_wf(0));
    assert(ns.dir_wf(dir));
    assert forall|i: int| 0 <= i < MAX_SIZE_OF_DIRECTORIES implies #[trigger] after.dir_wf(i) by {
        lemma_filed_dir(ns, after, dir, slot, pos, name, i);
    }
    assert forall|f: int| 0 <= f < MAX_SIZE_FILES implies #[trigger] after.file_wf(f) by {
        assert(ns.file_wf(f));
        if f == slot {
            assert(after.dirs[dir].files_indexes[pos] == slot as usize);
        } else if ns.files[f].index == f {
            let folder = ns.files[f].folder_index as int;
            let w = choose|w: int|
                0 <= w < ns.dirs[folder].files_indexes.len() && ns.dirs[folder].files_indexes[w]
                    == f as usize;
            assert(after.dirs[folder].files_indexes[w] == f as usize);
        }
    }
    let rank = choose|rank: Seq<nat>| ns.ranked(rank);
    assert(after.ranked(rank)) by {
        assert forall|i: int|
            0 <= i < MAX_SIZE_OF_DIRECTORIES implies #[trigger] after.rank_grows(rank, i) by {
            assert(ns.rank_grows(rank, i));
        }
    }
}

/// Creating a file keeps the namespace well formed.
pub proof fn lemma_create_file_wf(ns: NamespaceView, dir: int, name: Seq<u8>)
    requires
        ns.wf(),
    ensures
        ns.create_file(dir, name).wf(),
{
    if ns.create_file_result(dir, name) is Ok {
        let after = ns.create_file(dir, name);
        let slot = ns.free_file_slot();
        let pos = ns.free_file_entry(dir);
        lemma_first_index_of(ns.file_indexes(), CLEAR_MARKER_FILE, 0);
        lemma_first_index_of(ns.dirs[dir].files_indexes, CLEAR_MARKER_FILE, 0);
        assert(ns.file_indexes()[slot] == CLEAR_MARKER_FILE);
        assert(ns.dir_wf(dir));
        assert(filed(ns, after, dir, slot, pos, name));
        lemma_filed_wf(ns, after, dir, slot, pos, name);
    }
}

/// `after` is `ns` without the file `t`, which entry `pos` of `dir` listed.
spec fn unfiled(ns: NamespaceView, after: NamespaceView, dir: int, t: int, pos: int) -> bool {
    &&& ns.wf()
    &&& ns.dir_live(dir)
    &&& 0 <= pos < MAX_SIZE_FILES_IN_DIRECTORY
    &&& ns.dirs[dir].files_indexes[pos] == t
    &&& 0 <= t < MAX_SIZE_FILES
    &&& ns.files[t].index == t
    &&& ns.files[t].folder_index == dir
    &&& after.files.len() == MAX_SIZE_FILES
    &&& after.dirs.len() == MAX_SIZE_OF_DIRECTORIES
    &&& after.files[t] == FileView::free()
    &&& after.dirs[dir] == ns.dirs[dir].without_file(pos)
    &&& forall|i: int|
        0 <= i < MAX_SIZE_OF_DIRECTORIES && i != dir ==> #[trigger] after.dirs[i] == ns.dirs[i]
    &&& forall|f: int|
        0 <= f < MAX_SIZE_FILES && f != t ==> #[trigger] after.files[f] == ns.files[f]
}

proof fn lemma_unfiled_dir(
    ns: NamespaceView,
    after: NamespaceView,
    dir: int,
    t: int,
    pos: int,
    i: int,
)
    requires
        unfiled(ns, after, dir, t, pos),
        0 <= i < MAX_SIZE_OF_DIRECTORIES,
    ensures
        after.dir_wf(i),
{
    assert(ns.dir_wf(i));
    if ns.dirs[i].index == i {
        let j = ns.dirs[i].parent_index as int;
        assert(after.dirs[j].child_indexes == ns.dirs[j].child_indexes);
        assert forall|p: int|
            0 <= p < MAX_SIZE_OF_CHILDREN_DIRECTORIES
            implies #[trigger] entry_kept(ns, after, i, p) by {
            assert(ns.child_entry_wf(i, p));
        }
        lemma_names_kept(ns, after, i);
        assert forall|p: int|
            0 <= p < MAX_SIZE_OF_CHILDREN_DIRECTORIES
            implies #[trigger] after.child_entry_wf(i, p) by {
            assert(ns.child_entry_wf(i, p));
        }
        assert forall|p: int|
            0 <= p < MAX_SIZE_FILES_IN_DIRECTORY implies #[trigger] after.file_entry_wf(i, p) by {
            assert(ns.file_entry_wf(i, p));
            if i == dir && p != pos {
                assert(ns.dirs[dir].files_indexes[p] == after.dirs[dir].files_indexes[p]);
                if ns.dirs[dir].files_indexes[p] != CLEAR_MARKER_FILE {
                    assert(ns.dirs[dir].files_indexes[p] != ns.dirs[dir].files_indexes[pos]);
                }
            }
        }
        if i == dir {
            assert(distinct_entries(after.dirs[i].files_indexes, CLEAR_MARKER_FILE)) by {
                let old_entries = ns.dirs[i].files_indexes;
                let entries = after.dirs[i].files_indexes;
                assert forall|p: int, q: int|
                    0 <= p < entries.len() && 0 <= q < entries.len() && p != q
                        && #[trigger] entries[p] != CLEAR_MARKER_FILE implies entries[p]
                    != #[trigger] entries[q] by {
                    assert(entries[p] == old_entries[p]);
                    if q != pos {
                        assert(entries[q] == old_entries[q]);
                    }
                }
            }
        }
    }
}

proof fn lemma_unfiled_wf(ns: NamespaceView, after: NamespaceView, dir: int, t: int, pos: int)
    requires
        unfiled(ns, after, dir, t, pos),
    ensures
        after.wf(),
{
    assert(ns.dir_wf(0));
    assert(ns.dir_wf(dir));
    assert forall|i: int| 0 <= i < MAX_SIZE_OF_DIRECTORIES implies #[trigger] after.dir_wf(i) by {
        lemma_unfiled_dir(ns, after, dir, t, pos, i);
    }
    assert forall|f: int| 0 <= f < MAX_SIZE_FILES implies #[trigger] after.file_wf(f) by {
        assert(ns.file_wf(f));
        if f != t && ns.files[f].index == f {
            let folder = ns.files[f].folder_index as int;
            let w = choose|w: int|
                0 <= w < ns.dirs[folder].files_indexes.len() && ns.dirs[folder].files_indexes[w]
                    == f as usize;
            assert(after.dirs[folder].files_indexes[w] == f as usize);
        }
    }
    let rank = choose|rank: Seq<nat>| ns.ranked(rank);
    assert(after.ranked(rank)) by {
        assert forall|i: int|
            0 <= i < MAX_SIZE_OF_DIRECTORIES implies #[trigger] after.rank_grows(rank, i) by {
            assert(ns.rank_grows(rank, i));
        }
    }
}

/// Removing a file keeps the namespace well formed.
pub proof fn lemma_remove_file_wf(ns: NamespaceView, dir: int, name: Seq<u8>)
    requires
        ns.wf(),
    ensures
        ns.remove_file(dir, name).wf(),
{
    if let Ok(target) = ns.remove_file_result(dir, name) {
        let after = ns.remove_file(dir, name);
        let t = target as int;
        let pos = ns.file_position(dir, name);
        assert(ns.dir_wf(dir));
        lemma_first_index_of(ns.file_hits(dir, name), true, 0);
        assert(ns.file_hits(dir, name)[pos]);
        assert(ns.file_entry_wf(dir, pos));
        assert(unfiled(ns, after, dir, t, pos));
        lemma_unfiled_wf(ns, after, dir, t, pos);
    }
}

} // verus!
