//! What holds across the operations on the namespace.

use crate::error::{Capacity, ShellError};
use crate::names::{
    is_text, lemma_first_index_of, lemma_first_index_of_is, lemma_name_cells_hold,
    lemma_name_matches_itself,
    lemma_text_of, lemma_text_of_cells, name_is, name_matches, text_of,
    MAX_SIZE_DIRECTORY_NAME,
};
use crate::tree_proof::{lemma_count_live_positive, lemma_create_child_directory_wf};
use crate::tree_spec::{
    file_suffix, indent, line_end, slash, DirView, NamespaceView, CLEAR_MARKER_DIRECTORY,
    CLEAR_MARKER_FILE, MAX_SIZE_FILES_IN_DIRECTORY, MAX_SIZE_OF_CHILDREN_DIRECTORIES,
    MAX_SIZE_OF_DIRECTORIES,
};
use vstd::prelude::*;

verus! {

/// The text of a name finds the name: a directory is found under its own
/// name.
pub proof fn lemma_name_finds_itself(cells: Seq<u8>)
    requires
        cells.len() == MAX_SIZE_DIRECTORY_NAME,
    ensures
        name_matches(text_of(cells), cells),
{
    lemma_text_of(cells);
}

/// A directory that was created is found under its name in the directory
/// it was created in, by a query and by its whole name; it carries that
/// name, and its parent is that directory.
pub proof fn law_created_directory_is_found(ns: NamespaceView, dir: int, name: Seq<u8>)
    requires
        ns.wf(),
        is_text(name),
        ns.create_child_directory_result(dir, name) is Ok,
    ensures
        ({
            let slot = ns.create_child_directory_result(dir, name)->Ok_0;
            let after = ns.create_child_directory(dir, name);
            &&& after.find_child_by_name(dir, name) == Some(slot)
            &&& after.find_child_named(dir, name) == Some(slot)
            &&& after.dir_live(slot as int)
            &&& text_of(after.dirs[slot as int].name) == name
            &&& name_is(name, after.dirs[slot as int].name)
            &&& after.dirs[slot as int].parent_index == dir
        }),
{
    let slot = ns.free_dir_slot();
    let pos = ns.free_child_entry(dir);
    let after = ns.create_child_directory(dir, name);
    lemma_create_child_directory_wf(ns, dir, name);
    lemma_name_cells_hold(name);
    lemma_first_index_of(ns.dirs[dir].child_indexes, CLEAR_MARKER_DIRECTORY, 0);
    lemma_first_index_of(ns.dir_indexes(), CLEAR_MARKER_DIRECTORY, 0);
    assert(ns.dir_wf(dir));
    assert(ns.dir_indexes()[slot] == CLEAR_MARKER_DIRECTORY);
    law_name_names_its_child(after, dir, name, pos);
    let hits = ns.child_hits(dir, name);
    let after_hits = after.child_hits(dir, name);
    assert(ns.dir_wf(dir));
    lemma_first_index_of(ns.dir_indexes(), CLEAR_MARKER_DIRECTORY, 0);
    lemma_first_index_of(ns.dirs[dir].child_indexes, CLEAR_MARKER_DIRECTORY, 0);
    lemma_first_index_of(hits, true, 0);
    assert(ns.dir_indexes()[slot] == CLEAR_MARKER_DIRECTORY);
    lemma_name_matches_itself(name);
    lemma_text_of_cells(name, MAX_SIZE_DIRECTORY_NAME as int);
    assert(after_hits[pos]);
    assert forall|k: int| 0 <= k < pos implies after_hits[k] != true by {
        assert(ns.child_entry_wf(dir, k));
        assert(!hits[k]);
    }
    lemma_first_index_of_is(after_hits, true, 0, pos);
}

/// A file that was created is found under its name in the directory it
/// was created in; it carries that name, belongs to that directory, and
/// counts no line yet.
pub proof fn law_created_file_is_found(ns: NamespaceView, dir: int, name: Seq<u8>)
    requires
        ns.wf(),
        is_text(name),
        ns.create_file_result(dir, name) is Ok,
    ensures
        ({
            let slot = ns.create_file_result(dir, name)->Ok_0;
            let after = ns.create_file(dir, name);
            &&& after.find_file_by_name(dir, name) == Some(slot)
            &&& after.file_live(slot as int)
            &&& text_of(after.files[slot as int].name) == name
            &&& after.files[slot as int].folder_index == dir
            &&& after.files[slot as int].count_lines == 0
        }),
{
    let slot = ns.free_file_slot();
    let pos = ns.free_file_entry(dir);
    let after = ns.create_file(dir, name);
    let hits = ns.file_hits(dir, name);
    let after_hits = after.file_hits(dir, name);
    assert(ns.dir_wf(dir));
    lemma_first_index_of(ns.file_indexes(), CLEAR_MARKER_FILE, 0);
    lemma_first_index_of(ns.dirs[dir].files_indexes, CLEAR_MARKER_FILE, 0);
    lemma_first_index_of(hits, true, 0);
    assert(ns.file_indexes()[slot] == CLEAR_MARKER_FILE);
    lemma_name_matches_itself(name);
    lemma_text_of_cells(name, MAX_SIZE_DIRECTORY_NAME as int);
    assert(after_hits[pos]);
    assert forall|k: int| 0 <= k < pos implies after_hits[k] != true by {
        assert(ns.file_entry_wf(dir, k));
        assert(!hits[k]);
    }
    lemma_first_index_of_is(after_hits, true, 0, pos);
}

/// Creating a directory under a name that a child of the same directory
/// carries fails with `DuplicateName` and changes nothing.
pub proof fn law_sibling_name_is_duplicate(ns: NamespaceView, dir: int, name: Seq<u8>, entry: int)
    requires
        ns.wf(),
        ns.dir_live(dir),
        0 <= entry < MAX_SIZE_OF_CHILDREN_DIRECTORIES,
        ns.dirs[dir].child_indexes[entry] != CLEAR_MARKER_DIRECTORY,
        text_of(ns.dirs[ns.dirs[dir].child_indexes[entry] as int].name) == name,
        name.len() > 0,
    ensures
        ns.create_child_directory_result(dir, name) == Err::<usize, ShellError>(
            ShellError::DuplicateName,
        ),
        ns.create_child_directory(dir, name) == ns,
{
    let sibling = ns.dirs[dir].child_indexes[entry] as int;
    let hits = ns.child_hits(dir, name);
    assert(ns.dir_wf(dir));
    assert(ns.child_entry_wf(dir, entry));
    assert(ns.dir_wf(sibling));
    lemma_name_finds_itself(ns.dirs[sibling].name);
    lemma_text_of(ns.dirs[sibling].name);
    assert(hits[entry]);
    lemma_first_index_of(hits, true, 0);
}

/// A name names the one child that carries it: where entry `entry` of
/// `dir` holds a directory whose name is `name`, that directory is what
/// `name` finds by whole name, whatever stands before or after it.
pub proof fn law_name_names_its_child(ns: NamespaceView, dir: int, name: Seq<u8>, entry: int)
    requires
        ns.wf(),
        ns.dir_live(dir),
        0 <= entry < MAX_SIZE_OF_CHILDREN_DIRECTORIES,
        ns.dirs[dir].child_indexes[entry] != CLEAR_MARKER_DIRECTORY,
        name_is(name, ns.dirs[ns.dirs[dir].child_indexes[entry] as int].name),
    ensures
        ns.named_position(dir, name) == entry,
        ns.find_child_named(dir, name) == Some(ns.dirs[dir].child_indexes[entry]),
{
    let hits = ns.named_hits(dir, name);
    assert(ns.dir_wf(dir));
    assert(hits[entry]);
    assert(ns.child_entry_wf(dir, entry));
    assert(ns.dir_wf(ns.dirs[dir].child_indexes[entry] as int));
    assert forall|k: int| 0 <= k < entry implies hits[k] != true by {
        assert(ns.child_names_differ(dir, k, entry));
        assert(ns.child_entry_wf(dir, k));
        if ns.dirs[dir].child_indexes[k] != CLEAR_MARKER_DIRECTORY {
            assert(ns.dir_wf(ns.dirs[dir].child_indexes[k] as int));
        }
    }
    lemma_first_index_of_is(hits, true, 0, entry);
}

/// A text that is the name of no child of `dir` removes nothing, even
/// where it starts the name of a child: the result is nothing and the
/// namespace is as it was.
pub proof fn law_remove_without_name_does_nothing(ns: NamespaceView, dir: int, name: Seq<u8>)
    requires
        ns.wf(),
        ns.dir_live(dir),
        name.len() > 0,
        forall|p: int|
            0 <= p < MAX_SIZE_OF_CHILDREN_DIRECTORIES && #[trigger] ns.dirs[dir].child_indexes[p]
                != CLEAR_MARKER_DIRECTORY ==> !name_is(
                name,
                ns.dirs[ns.dirs[dir].child_indexes[p] as int].name,
            ),
    ensures
        ns.remove_child_directory_result(dir, name) == Ok::<Option<usize>, ShellError>(None),
        ns.remove_child_directory(dir, name) == ns,
{
    let hits = ns.named_hits(dir, name);
    assert(ns.dir_wf(dir));
    lemma_first_index_of(hits, true, 0);
    let pos = ns.named_position(dir, name);
    if pos < MAX_SIZE_OF_CHILDREN_DIRECTORIES {
        assert(hits[pos]);
        assert(ns.dirs[dir].child_indexes[pos] != CLEAR_MARKER_DIRECTORY);
    }
}

/// Removing a directory that has child directories fails with
/// `HasChildren` and changes nothing. So does removing one that has files.
/// The directory is the child of `dir` whose name is `name`; it stands in
/// entry `entry`.
pub proof fn law_remove_refuses_full_directory(
    ns: NamespaceView,
    dir: int,
    name: Seq<u8>,
    entry: int,
)
    requires
        ns.wf(),
        ns.dir_live(dir),
        name.len() > 0,
        0 <= entry < MAX_SIZE_OF_CHILDREN_DIRECTORIES,
        ns.dirs[dir].child_indexes[entry] != CLEAR_MARKER_DIRECTORY,
        name_is(name, ns.dirs[ns.dirs[dir].child_indexes[entry] as int].name),
        ({
            let target = ns.dirs[dir].child_indexes[entry] as int;
            ns.dirs[target].child_count > 0 || exists|p: int|
                0 <= p < MAX_SIZE_FILES_IN_DIRECTORY && ns.dirs[target].files_indexes[p]
                    != CLEAR_MARKER_FILE
        }),
    ensures
        ns.remove_child_directory_result(dir, name) == Err::<Option<usize>, ShellError>(
            ShellError::HasChildren,
        ),
        ns.remove_child_directory(dir, name) == ns,
{
    let target = ns.dirs[dir].child_indexes[entry] as int;
    law_name_names_its_child(ns, dir, name, entry);
    if ns.dirs[target].child_count == 0 {
        let p = choose|p: int|
            0 <= p < MAX_SIZE_FILES_IN_DIRECTORY && ns.dirs[target].files_indexes[p]
                != CLEAR_MARKER_FILE;
        assert(ns.dir_wf(dir));
        assert(ns.child_entry_wf(dir, entry));
        assert(ns.dir_wf(target));
        lemma_count_live_positive(ns.dirs[target].files_indexes, CLEAR_MARKER_FILE, p);
    }
}

/// Removing an empty directory by its name frees its slot and nothing
/// else. The directory is the child of `dir` whose name is `name`; it
/// stands in entry `entry`. Its slot holds the free record, the entry that
/// held it is unused and the other entries of `dir` are as they were, the
/// child count of `dir` is exactly one less, every other directory and
/// every file is as it was, and the slot is left to the next creation
/// unless a lower slot is free: the lowest free slot is then the lower of
/// the freed slot and the one that was lowest before.
pub proof fn law_removed_directory_frees_slot(
    ns: NamespaceView,
    dir: int,
    name: Seq<u8>,
    entry: int,
)
    requires
        ns.wf(),
        ns.dir_live(dir),
        name.len() > 0,
        0 <= entry < MAX_SIZE_OF_CHILDREN_DIRECTORIES,
        ns.dirs[dir].child_indexes[entry] != CLEAR_MARKER_DIRECTORY,
        name_is(name, ns.dirs[ns.dirs[dir].child_indexes[entry] as int].name),
        !ns.holds_entries(ns.dirs[dir].child_indexes[entry] as int),
    ensures
        ({
            let target = ns.dirs[dir].child_indexes[entry];
            let after = ns.remove_child_directory(dir, name);
            &&& ns.remove_child_directory_result(dir, name) == Ok::<Option<usize>, ShellError>(
                Some(target),
            )
            &&& ns.dir_live(target as int)
            &&& after.dirs[target as int] == DirView::free()
            &&& !after.dir_live(target as int)
            &&& after.dir_live(dir)
            &&& after.dirs[dir].child_count == ns.dirs[dir].child_count - 1
            &&& after.dirs[dir].child_indexes == ns.dirs[dir].child_indexes.update(
                entry,
                CLEAR_MARKER_DIRECTORY,
            )
            &&& !after.dirs[dir].child_indexes.contains(target)
            &&& after.find_child_named(dir, name) is None
            &&& after.files == ns.files
            &&& forall|i: int|
                0 <= i < MAX_SIZE_OF_DIRECTORIES && i != target && i != dir
                    ==> #[trigger] after.dirs[i] == ns.dirs[i]
            &&& after.free_dir_slot() == if target < ns.free_dir_slot() {
                target as int
            } else {
                ns.free_dir_slot()
            }
        }),
{
    law_name_names_its_child(ns, dir, name, entry);
    let target = ns.dirs[dir].child_indexes[entry] as int;
    let after = ns.remove_child_directory(dir, name);
    assert(ns.dir_wf(dir));
    assert(ns.child_entry_wf(dir, entry));
    lemma_count_live_positive(ns.dirs[dir].child_indexes, CLEAR_MARKER_DIRECTORY, entry);
    lemma_first_index_of(ns.dir_indexes(), CLEAR_MARKER_DIRECTORY, 0);
    let lowest = if target < ns.free_dir_slot() {
        target
    } else {
        ns.free_dir_slot()
    };
    assert forall|i: int| 0 <= i < lowest implies after.dir_indexes()[i]
        != CLEAR_MARKER_DIRECTORY by {
        assert(ns.dir_indexes()[i] != CLEAR_MARKER_DIRECTORY);
    }
    if lowest < MAX_SIZE_OF_DIRECTORIES {
        assert(after.dir_indexes()[lowest] == CLEAR_MARKER_DIRECTORY) by {
            if lowest != target {
                assert(ns.dir_indexes()[lowest] == CLEAR_MARKER_DIRECTORY);
                assert(ns.dir_wf(lowest));
            }
        }
    }
    lemma_first_index_of_is(after.dir_indexes(), CLEAR_MARKER_DIRECTORY, 0, lowest);
    let entries = after.dirs[dir].child_indexes;
    assert forall|k: int| 0 <= k < entries.len() implies entries[k] != target as usize by {
        if k != entry {
            assert(ns.dirs[dir].child_indexes[k] == entries[k]);
        }
    }
    let after_hits = after.named_hits(dir, name);
    lemma_first_index_of(after_hits, true, 0);
    let found = after.named_position(dir, name);
    if found < MAX_SIZE_OF_CHILDREN_DIRECTORIES {
        assert(after_hits[found]);
        assert(found != entry);
        assert(ns.child_entry_wf(dir, found));
        assert(ns.child_names_differ(dir, found, entry));
        let other = ns.dirs[dir].child_indexes[found] as int;
        assert(ns.dir_wf(other));
        assert(ns.dir_wf(target));
        assert(after.dirs[other] == ns.dirs[other]);
        assert(false);
    }
}

/// Creating a directory leaves every directory that was in use in use,
/// and every file as it was.
pub proof fn law_create_keeps_others(ns: NamespaceView, dir: int, name: Seq<u8>)
    requires
        ns.wf(),
    ensures
        ns.create_child_directory(dir, name).files == ns.files,
        forall|i: int| ns.dir_live(i) ==> ns.create_child_directory(dir, name).dir_live(i),
{
    if ns.create_child_directory_result(dir, name) is Ok {
        let slot = ns.free_dir_slot();
        lemma_first_index_of(ns.dir_indexes(), CLEAR_MARKER_DIRECTORY, 0);
        assert(ns.dir_indexes()[slot] == CLEAR_MARKER_DIRECTORY);
    }
}

/// Removing a child of a directory leaves that directory in use, and every
/// file as it was.
pub proof fn law_remove_keeps_others(ns: NamespaceView, dir: int, name: Seq<u8>)
    requires
        ns.wf(),
        ns.dir_live(dir),
    ensures
        ns.remove_child_directory(dir, name).files == ns.files,
        ns.remove_child_directory(dir, name).dir_live(dir),
{
    if let Ok(Some(target)) = ns.remove_child_directory_result(dir, name) {
        let pos = ns.named_position(dir, name);
        assert(ns.dir_wf(dir));
        lemma_first_index_of(ns.named_hits(dir, name), true, 0);
        assert(ns.named_hits(dir, name)[pos]);
        assert(ns.child_entry_wf(dir, pos));
    }
}

/// A file that was created is in use. Creating it leaves every other file
/// in use, and every directory that was in use.
pub proof fn law_created_file_is_live(ns: NamespaceView, dir: int, name: Seq<u8>)
    requires
        ns.wf(),
    ensures
        ns.create_file_result(dir, name) is Ok ==> ns.create_file(dir, name).file_live(
            ns.create_file_result(dir, name)->Ok_0 as int,
        ),
        forall|f: int| ns.file_live(f) ==> ns.create_file(dir, name).file_live(f),
        forall|i: int| ns.dir_live(i) ==> ns.create_file(dir, name).dir_live(i),
{
    if ns.create_file_result(dir, name) is Ok {
        let slot = ns.free_file_slot();
        lemma_first_index_of(ns.file_indexes(), CLEAR_MARKER_FILE, 0);
        assert(ns.file_indexes()[slot] == CLEAR_MARKER_FILE);
        assert(ns.dir_wf(dir));
    }
}

/// Removing a file leaves every directory that was in use in use, and
/// every file but the removed one.
pub proof fn law_remove_file_keeps_others(ns: NamespaceView, dir: int, name: Seq<u8>)
    requires
        ns.wf(),
    ensures
        forall|i: int| ns.dir_live(i) ==> ns.remove_file(dir, name).dir_live(i),
        forall|f: int|
            ns.file_live(f) && ns.remove_file_result(dir, name) != Ok::<usize, ShellError>(
                f as usize,
            ) ==> ns.remove_file(dir, name).file_live(f),
        ns.remove_file_result(dir, name) is Ok ==> !ns.remove_file(dir, name).file_live(
            ns.remove_file_result(dir, name)->Ok_0 as int,
        ),
{
    if ns.remove_file_result(dir, name) is Ok {
        assert(ns.dir_wf(dir));
        lemma_first_index_of(ns.file_hits(dir, name), true, 0);
        let pos = ns.file_position(dir, name);
        assert(ns.file_hits(dir, name)[pos]);
        assert(ns.file_entry_wf(dir, pos));
    }
}

/// With every directory slot in use, creating a directory under a new name
/// fails with `CapacityExceeded`, whatever entries its parent has left.
pub proof fn law_no_directory_beyond_capacity(ns: NamespaceView, dir: int, name: Seq<u8>)
    requires
        ns.wf(),
        ns.dir_live(dir),
        0 < name.len() <= MAX_SIZE_DIRECTORY_NAME,
        ns.find_child_by_name(dir, name) is None,
        forall|i: int| 0 <= i < MAX_SIZE_OF_DIRECTORIES ==> ns.dir_live(i),
    ensures
        ns.create_child_directory_result(dir, name) == Err::<usize, ShellError>(
            ShellError::CapacityExceeded(Capacity::Directories),
        ),
        ns.create_child_directory(dir, name) == ns,
{
    lemma_first_index_of(ns.dir_indexes(), CLEAR_MARKER_DIRECTORY, 0);
    let slot = ns.free_dir_slot();
    if slot < MAX_SIZE_OF_DIRECTORIES {
        assert(ns.dir_indexes()[slot] == CLEAR_MARKER_DIRECTORY);
        assert(ns.dir_live(slot));
    }
}

/// The number of directories in use among the first `upto` slots.
pub open spec fn dirs_in_use(ns: NamespaceView, upto: int) -> nat
    decreases upto,
{
    if upto <= 0 {
        0
    } else {
        dirs_in_use(ns, upto - 1) + if ns.dir_live(upto - 1) {
            1nat
        } else {
            0nat
        }
    }
}

/// A creation that succeeds brings one more directory into use, and one
/// that fails none.
pub proof fn law_create_counts_one(ns: NamespaceView, dir: int, name: Seq<u8>)
    requires
        ns.wf(),
    ensures
        ({
            let slots = MAX_SIZE_OF_DIRECTORIES as int;
            let created: nat = if ns.create_child_directory_result(dir, name) is Ok {
                1
            } else {
                0
            };
            dirs_in_use(ns.create_child_directory(dir, name), slots) == dirs_in_use(ns, slots)
                + created
        }),
{
    if ns.create_child_directory_result(dir, name) is Ok {
        let after = ns.create_child_directory(dir, name);
        let slot = ns.free_dir_slot();
        lemma_first_index_of(ns.dir_indexes(), CLEAR_MARKER_DIRECTORY, 0);
        assert(ns.dir_indexes()[slot] == CLEAR_MARKER_DIRECTORY);
        assert(ns.dir_wf(dir));
        lemma_dirs_in_use_step(ns, after, slot, MAX_SIZE_OF_DIRECTORIES as int);
    }
}

proof fn lemma_dirs_in_use_step(ns: NamespaceView, after: NamespaceView, slot: int, upto: int)
    requires
        0 <= upto <= MAX_SIZE_OF_DIRECTORIES,
        0 <= slot < MAX_SIZE_OF_DIRECTORIES,
        ns.dirs.len() == MAX_SIZE_OF_DIRECTORIES,
        after.dirs.len() == MAX_SIZE_OF_DIRECTORIES,
        !ns.dir_live(slot),
        after.dir_live(slot),
        forall|i: int|
            0 <= i < MAX_SIZE_OF_DIRECTORIES && i != slot ==> after.dir_live(i) == ns.dir_live(i),
    ensures
        dirs_in_use(after, upto) == dirs_in_use(ns, upto) + if slot < upto {
            1nat
        } else {
            0nat
        },
    decreases upto,
{
    if upto > 0 {
        lemma_dirs_in_use_step(ns, after, slot, upto - 1);
    }
}

/// Unused child entries add nothing to a listing: where the entries from
/// `from` up to `upto` are unused, the listing of the first `upto` entries
/// is that of the first `from`.
pub proof fn lemma_unused_children_list_nothing(
    ns: NamespaceView,
    dir: int,
    depth: nat,
    fuel: nat,
    from: int,
    upto: int,
)
    requires
        0 <= from <= upto,
        forall|p: int| from <= p < upto ==> ns.dirs[dir].child_indexes[p] == CLEAR_MARKER_DIRECTORY,
    ensures
        ns.children_text(dir, depth, fuel, upto) == ns.children_text(dir, depth, fuel, from),
    decreases upto - from,
{
    if from < upto {
        lemma_unused_children_list_nothing(ns, dir, depth, fuel, from, upto - 1);
        assert(ns.child_entry_text(dir, depth, fuel, upto - 1) =~= Seq::<u8>::empty());
        assert(ns.children_text(dir, depth, fuel, upto) =~= ns.children_text(
            dir,
            depth,
            fuel,
            upto - 1,
        ));
    }
}

/// Unused file entries add nothing to a listing.
pub proof fn lemma_unused_files_list_nothing(
    ns: NamespaceView,
    dir: int,
    depth: nat,
    from: int,
    upto: int,
)
    requires
        0 <= from <= upto,
        forall|p: int| from <= p < upto ==> ns.dirs[dir].files_indexes[p] == CLEAR_MARKER_FILE,
    ensures
        ns.files_text(dir, depth, upto) == ns.files_text(dir, depth, from),
    decreases upto - from,
{
    if from < upto {
        lemma_unused_files_list_nothing(ns, dir, depth, from, upto - 1);
        assert(ns.file_entry_text(dir, depth, upto - 1) =~= Seq::<u8>::empty());
        assert(ns.files_text(dir, depth, upto) =~= ns.files_text(dir, depth, upto - 1));
    }
}

/// Directory `top` holds the directory `child` in its first child entry
/// and nothing else, and `child` holds the file `file` in its first file
/// entry and nothing else.
pub open spec fn holds_one_directory_with_one_file(
    ns: NamespaceView,
    top: int,
    child: int,
    file: int,
) -> bool {
    &&& ns.dir_live(top)
    &&& ns.dirs[top].child_indexes[0] == child
    &&& child != CLEAR_MARKER_DIRECTORY
    &&& forall|p: int|
        1 <= p < MAX_SIZE_OF_CHILDREN_DIRECTORIES ==> ns.dirs[top].child_indexes[p]
            == CLEAR_MARKER_DIRECTORY
    &&& forall|p: int|
        0 <= p < MAX_SIZE_FILES_IN_DIRECTORY ==> ns.dirs[top].files_indexes[p]
            == CLEAR_MARKER_FILE
    &&& forall|p: int|
        0 <= p < MAX_SIZE_OF_CHILDREN_DIRECTORIES ==> ns.dirs[child].child_indexes[p]
            == CLEAR_MARKER_DIRECTORY
    &&& ns.dirs[child].files_indexes[0] == file
    &&& file != CLEAR_MARKER_FILE
    &&& forall|p: int|
        1 <= p < MAX_SIZE_FILES_IN_DIRECTORY ==> ns.dirs[child].files_indexes[p]
            == CLEAR_MARKER_FILE
}

/// The listing of a directory that holds one directory, which holds one
/// file: the directory's name, on the next line the child's name one level
/// in, and on the line after it the file's name with its suffix, two
/// levels in.
pub open spec fn listing_of_one_directory_with_one_file(
    ns: NamespaceView,
    top: int,
    child: int,
    file: int,
) -> Seq<u8> {
    slash() + text_of(ns.dirs[top].name) + line_end() + indent(1) + slash() + text_of(
        ns.dirs[child].name,
    ) + line_end() + indent(2) + slash() + text_of(ns.files[file].name) + file_suffix()
        + line_end()
}

/// A directory that holds one directory with one file in it is listed as
/// `listing_of_one_directory_with_one_file` says: each name stands in the
/// listing exactly once.
pub proof fn law_listing_of_one_directory_with_one_file(
    ns: NamespaceView,
    top: int,
    child: int,
    file: int,
)
    requires
        ns.wf(),
        holds_one_directory_with_one_file(ns, top, child, file),
    ensures
        ns.tree_text(top) == listing_of_one_directory_with_one_file(ns, top, child, file),
{
    let fuel = MAX_SIZE_OF_DIRECTORIES as nat;
    let inner = (fuel - 1) as nat;
    assert(ns.dir_wf(top));
    assert(ns.child_entry_wf(top, 0));
    assert(ns.dir_wf(child));
    lemma_unused_children_list_nothing(ns, top, 1, fuel, 1, 10);
    lemma_unused_files_list_nothing(ns, top, 1, 0, 10);
    lemma_unused_children_list_nothing(ns, child, 2, inner, 0, 10);
    lemma_unused_files_list_nothing(ns, child, 2, 1, 10);
    assert(ns.files_text(top, 1, 0) =~= Seq::<u8>::empty());
    assert(ns.children_text(child, 2, inner, 0) =~= Seq::<u8>::empty());
    assert(ns.children_text(top, 1, fuel, 0) =~= Seq::<u8>::empty());
    assert(ns.files_text(child, 2, 0) =~= Seq::<u8>::empty());
    let file_line = indent(2) + slash() + text_of(ns.files[file].name) + file_suffix()
        + line_end();
    assert(ns.file_entry_text(child, 2, 0) == file_line);
    assert(ns.files_text(child, 2, 1) =~= file_line);
    let held = line_end() + file_line;
    assert(ns.contents_text(child, 2, inner) =~= held);
    let child_line = indent(1) + slash() + text_of(ns.dirs[child].name) + held;
    assert(ns.child_entry_text(top, 1, fuel, 0) == child_line);
    assert(ns.children_text(top, 1, fuel, 1) =~= child_line);
    assert(ns.contents_text(top, 1, fuel) =~= line_end() + child_line);
    assert(ns.tree_text(top) =~= listing_of_one_directory_with_one_file(ns, top, child, file));
}

} // verus!
