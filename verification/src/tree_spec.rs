//! The namespace as a value: what each operation on the tree of
//! directories and files returns and how it changes the tree.
//!
//! Directories and files live in numbered slots. A slot that is not in use
//! holds a free record, marked by an index beyond every slot. A directory
//! lists its child directories and its files in entries that hold a slot
//! number or the same mark.

use crate::error::{Capacity, ShellError};
use crate::names::{
    first_index_of, name_cells, name_is, name_matches, text_of, END_OF_TEXT,
    MAX_SIZE_DIRECTORY_NAME,
};
use crate::vga_buf::{BUF_HEIGHT, BUF_SIZE, BUF_WIDTH};
use vstd::prelude::*;

verus! {

/// Number of directory slots.
pub const MAX_SIZE_OF_DIRECTORIES: usize = 20;

/// Number of child-directory entries of a directory.
pub const MAX_SIZE_OF_CHILDREN_DIRECTORIES: usize = 10;

/// Number of file entries of a directory.
pub const MAX_SIZE_FILES_IN_DIRECTORY: usize = 10;

/// Number of file slots.
pub const MAX_SIZE_FILES: usize = 20;

/// Marks a free directory slot and an unused child-directory entry.
pub const CLEAR_MARKER_DIRECTORY: usize = MAX_SIZE_OF_DIRECTORIES + 1;

/// Marks a free file slot and an unused file entry.
pub const CLEAR_MARKER_FILE: usize = MAX_SIZE_FILES + 1;

/// The slot of the root directory.
pub const ROOT_DIRECTORY: usize = 0;

/// Number of cells of a file's body: one full display surface.
pub const BODY_SIZE: usize = BUF_SIZE;

/// Number of cells of one line of a file's body.
pub const LINE_WIDTH: usize = BUF_WIDTH as usize;

/// The most lines a file's body holds.
pub const MAX_LINES: usize = BUF_HEIGHT as usize;

/// Number of spaces that a listing is indented by for each level.
pub const INDENT_WIDTH: usize = 4;

/// The byte that fills the name of a free directory and a fresh body.
pub const BLANK: u8 = 0x20;

/// A directory record as a value.
pub struct DirView {
    pub index: usize,
    pub name: Seq<u8>,
    pub parent_index: usize,
    pub child_count: usize,
    pub child_indexes: Seq<usize>,
    pub files_indexes: Seq<usize>,
}

/// A file record as a value.
pub struct FileView {
    pub index: usize,
    pub name: Seq<u8>,
    pub count_lines: usize,
    pub folder_index: usize,
    pub context: Seq<u8>,
}

/// The namespace as a value: the records of all slots.
pub struct NamespaceView {
    pub dirs: Seq<DirView>,
    pub files: Seq<FileView>,
}

/// The number of entries that are in use.
pub open spec fn count_live(entries: Seq<usize>, free: usize) -> nat
    decreases entries.len(),
{
    if entries.len() == 0 {
        0
    } else {
        count_live(entries.drop_last(), free) + if entries.last() != free {
            1nat
        } else {
            0nat
        }
    }
}

/// No slot is named by two entries.
pub open spec fn distinct_entries(entries: Seq<usize>, free: usize) -> bool {
    forall|p: int, q: int|
        0 <= p < entries.len() && 0 <= q < entries.len() && p != q && #[trigger] entries[p]
            != free ==> entries[p] != #[trigger] entries[q]
}

/// Entries that are all unused.
pub open spec fn no_entries(len: int, free: usize) -> Seq<usize> {
    Seq::new(len as nat, |i: int| free)
}

/// The text `root`.
pub open spec fn root_name() -> Seq<u8> {
    seq![0x72u8, 0x6fu8, 0x6fu8, 0x74u8]
}

/// `depth` levels of indentation, `INDENT_WIDTH` spaces each.
pub open spec fn indent(depth: nat) -> Seq<u8> {
    Seq::new((INDENT_WIDTH * depth) as nat, |i: int| BLANK)
}

/// The text `.txt`, which follows a file's name in a listing.
pub open spec fn file_suffix() -> Seq<u8> {
    seq![0x2eu8, 0x74u8, 0x78u8, 0x74u8]
}

/// The byte `/`, which precedes each name in a path or a listing.
pub open spec fn slash() -> Seq<u8> {
    seq![0x2fu8]
}

/// The newline byte as a text.
pub open spec fn line_end() -> Seq<u8> {
    seq![0x0au8]
}

impl DirView {
    /// The record of a free slot: every field cleared.
    pub open spec fn free() -> DirView {
        DirView {
            index: CLEAR_MARKER_DIRECTORY,
            name: Seq::new(MAX_SIZE_DIRECTORY_NAME as nat, |i: int| BLANK),
            parent_index: CLEAR_MARKER_DIRECTORY,
            child_count: 0,
            child_indexes: no_entries(
                MAX_SIZE_OF_CHILDREN_DIRECTORIES as int,
                CLEAR_MARKER_DIRECTORY,
            ),
            files_indexes: no_entries(MAX_SIZE_FILES_IN_DIRECTORY as int, CLEAR_MARKER_FILE),
        }
    }

    /// The record of a new, empty directory.
    pub open spec fn fresh(slot: int, name: Seq<u8>, parent: int) -> DirView {
        DirView {
            index: slot as usize,
            name: name_cells(name),
            parent_index: parent as usize,
            child_count: 0,
            child_indexes: no_entries(
                MAX_SIZE_OF_CHILDREN_DIRECTORIES as int,
                CLEAR_MARKER_DIRECTORY,
            ),
            files_indexes: no_entries(MAX_SIZE_FILES_IN_DIRECTORY as int, CLEAR_MARKER_FILE),
        }
    }

    /// The record has all its cells and entries.
    pub open spec fn shape(self) -> bool {
        &&& self.name.len() == MAX_SIZE_DIRECTORY_NAME
        &&& self.child_indexes.len() == MAX_SIZE_OF_CHILDREN_DIRECTORIES
        &&& self.files_indexes.len() == MAX_SIZE_FILES_IN_DIRECTORY
    }

    /// The record with a child directory put into entry `pos`.
    pub open spec fn with_child(self, pos: int, slot: int) -> DirView {
        DirView {
            child_count: (self.child_count + 1) as usize,
            child_indexes: self.child_indexes.update(pos, slot as usize),
            ..self
        }
    }

    /// The record with the child directory taken out of entry `pos`.
    pub open spec fn without_child(self, pos: int) -> DirView {
        DirView {
            child_count: (self.child_count - 1) as usize,
            child_indexes: self.child_indexes.update(pos, CLEAR_MARKER_DIRECTORY),
            ..self
        }
    }

    /// The record with a file put into entry `pos`.
    pub open spec fn with_file(self, pos: int, slot: int) -> DirView {
        DirView { files_indexes: self.files_indexes.update(pos, slot as usize), ..self }
    }

    /// The record with the file taken out of entry `pos`.
    pub open spec fn without_file(self, pos: int) -> DirView {
        DirView { files_indexes: self.files_indexes.update(pos, CLEAR_MARKER_FILE), ..self }
    }
}

impl FileView {
    /// The record of a free slot: every field cleared.
    pub open spec fn free() -> FileView {
        FileView {
            index: CLEAR_MARKER_FILE,
            name: Seq::new(MAX_SIZE_DIRECTORY_NAME as nat, |i: int| END_OF_TEXT),
            count_lines: 0,
            folder_index: CLEAR_MARKER_DIRECTORY,
            context: Seq::new(BODY_SIZE as nat, |i: int| BLANK),
        }
    }

    /// The record of a new file without lines.
    pub open spec fn fresh(slot: int, name: Seq<u8>, folder: int) -> FileView {
        FileView {
            index: slot as usize,
            name: name_cells(name),
            count_lines: 0,
            folder_index: folder as usize,
            context: Seq::new(BODY_SIZE as nat, |i: int| BLANK),
        }
    }

    /// The record has all its cells.
    pub open spec fn shape(self) -> bool {
        &&& self.name.len() == MAX_SIZE_DIRECTORY_NAME
        &&& self.context.len() == BODY_SIZE
    }
}

impl NamespaceView {
    /// The namespace at the start: the root directory alone.
    pub open spec fn initial() -> NamespaceView {
        NamespaceView {
            dirs: Seq::new(
                MAX_SIZE_OF_DIRECTORIES as nat,
                |i: int|
                    if i == ROOT_DIRECTORY {
                        DirView::fresh(ROOT_DIRECTORY as int, root_name(), ROOT_DIRECTORY as int)
                    } else {
                        DirView::free()
                    },
            ),
            files: Seq::new(MAX_SIZE_FILES as nat, |i: int| FileView::free()),
        }
    }

    /// Slot `d` holds a directory.
    pub open spec fn dir_live(self, d: int) -> bool {
        0 <= d < self.dirs.len() && self.dirs[d].index != CLEAR_MARKER_DIRECTORY
    }

    /// Slot `f` holds a file.
    pub open spec fn file_live(self, f: int) -> bool {
        0 <= f < self.files.len() && self.files[f].index != CLEAR_MARKER_FILE
    }

    /// The index fields of all directory slots.
    pub open spec fn dir_indexes(self) -> Seq<usize> {
        Seq::new(self.dirs.len(), |i: int| self.dirs[i].index)
    }

    /// The index fields of all file slots.
    pub open spec fn file_indexes(self) -> Seq<usize> {
        Seq::new(self.files.len(), |i: int| self.files[i].index)
    }

    /// The lowest free directory slot, or the number of slots where none is
    /// free.
    pub open spec fn free_dir_slot(self) -> int {
        first_index_of(self.dir_indexes(), CLEAR_MARKER_DIRECTORY, 0)
    }

    /// The lowest free file slot, or the number of slots where none is free.
    pub open spec fn free_file_slot(self) -> int {
        first_index_of(self.file_indexes(), CLEAR_MARKER_FILE, 0)
    }

    /// The first unused child entry of directory `dir`, or the number of
    /// entries where all are in use.
    pub open spec fn free_child_entry(self, dir: int) -> int {
        first_index_of(self.dirs[dir].child_indexes, CLEAR_MARKER_DIRECTORY, 0)
    }

    /// The first unused file entry of directory `dir`, or the number of
    /// entries where all are in use.
    pub open spec fn free_file_entry(self, dir: int) -> int {
        first_index_of(self.dirs[dir].files_indexes, CLEAR_MARKER_FILE, 0)
    }

    /// For each child entry of `dir`, whether it holds a directory that
    /// `query` finds.
    pub open spec fn child_hits(self, dir: int, query: Seq<u8>) -> Seq<bool> {
        Seq::new(
            self.dirs[dir].child_indexes.len(),
            |p: int|
                {
                    let c = self.dirs[dir].child_indexes[p];
                    c != CLEAR_MARKER_DIRECTORY && name_matches(query, self.dirs[c as int].name)
                },
        )
    }

    /// For each file entry of `dir`, whether it holds a file that `query`
    /// finds.
    pub open spec fn file_hits(self, dir: int, query: Seq<u8>) -> Seq<bool> {
        Seq::new(
            self.dirs[dir].files_indexes.len(),
            |p: int|
                {
                    let f = self.dirs[dir].files_indexes[p];
                    f != CLEAR_MARKER_FILE && name_matches(query, self.files[f as int].name)
                },
        )
    }

    /// For each child entry of `dir`, whether it holds a directory whose
    /// name is `name`.
    pub open spec fn named_hits(self, dir: int, name: Seq<u8>) -> Seq<bool> {
        Seq::new(
            self.dirs[dir].child_indexes.len(),
            |p: int|
                {
                    let c = self.dirs[dir].child_indexes[p];
                    c != CLEAR_MARKER_DIRECTORY && name_is(name, self.dirs[c as int].name)
                },
        )
    }

    /// The first child entry of `dir` whose directory has the name `name`,
    /// or the number of entries where there is none.
    pub open spec fn named_position(self, dir: int, name: Seq<u8>) -> int {
        first_index_of(self.named_hits(dir, name), true, 0)
    }

    /// The slot of the child directory of `dir` whose name is `name`: all
    /// cells of the name are compared, so a text that only starts a name
    /// does not name it.
    pub open spec fn find_child_named(self, dir: int, name: Seq<u8>) -> Option<usize> {
        let pos = self.named_position(dir, name);
        if self.dir_live(dir) && pos < MAX_SIZE_OF_CHILDREN_DIRECTORIES {
            Some(self.dirs[dir].child_indexes[pos])
        } else {
            None
        }
    }

    /// The first child entry of `dir` whose directory `query` finds, or the
    /// number of entries where there is none.
    pub open spec fn child_position(self, dir: int, query: Seq<u8>) -> int {
        first_index_of(self.child_hits(dir, query), true, 0)
    }

    /// The first file entry of `dir` whose file `query` finds, or the number
    /// of entries where there is none.
    pub open spec fn file_position(self, dir: int, query: Seq<u8>) -> int {
        first_index_of(self.file_hits(dir, query), true, 0)
    }

    /// The slot of the first child directory of `dir`, in the order of its
    /// entries, that `query` finds.
    pub open spec fn find_child_by_name(self, dir: int, query: Seq<u8>) -> Option<usize> {
        let pos = self.child_position(dir, query);
        if self.dir_live(dir) && pos < MAX_SIZE_OF_CHILDREN_DIRECTORIES {
            Some(self.dirs[dir].child_indexes[pos])
        } else {
            None
        }
    }

    /// The slot of the first file of `dir`, in the order of its entries,
    /// that `query` finds.
    pub open spec fn find_file_by_name(self, dir: int, query: Seq<u8>) -> Option<usize> {
        let pos = self.file_position(dir, query);
        if self.dir_live(dir) && pos < MAX_SIZE_FILES_IN_DIRECTORY {
            Some(self.dirs[dir].files_indexes[pos])
        } else {
            None
        }
    }

    /// Directory `d` holds a child directory or a file.
    pub open spec fn holds_entries(self, d: int) -> bool {
        self.dirs[d].child_count > 0 || count_live(self.dirs[d].files_indexes, CLEAR_MARKER_FILE)
            > 0
    }

    /// What creating a directory named `name` in `dir` returns: the slot of
    /// the new directory, the lowest free one, or the first of these errors
    /// that applies.
    pub open spec fn create_child_directory_result(self, dir: int, name: Seq<u8>) -> Result<
        usize,
        ShellError,
    > {
        if !self.dir_live(dir) {
            Err(ShellError::NotFound)
        } else if name.len() == 0 {
            Err(ShellError::EmptyName)
        } else if name.len() > MAX_SIZE_DIRECTORY_NAME {
            Err(ShellError::NameTooLong)
        } else if self.find_child_by_name(dir, name) is Some {
            Err(ShellError::DuplicateName)
        } else if self.free_dir_slot() >= MAX_SIZE_OF_DIRECTORIES {
            Err(ShellError::CapacityExceeded(Capacity::Directories))
        } else if self.free_child_entry(dir) >= MAX_SIZE_OF_CHILDREN_DIRECTORIES {
            Err(ShellError::CapacityExceeded(Capacity::ChildrenPerDirectory))
        } else {
            Ok(self.free_dir_slot() as usize)
        }
    }

    /// The namespace after a directory named `name` is created in `dir`:
    /// the new record stands in the lowest free slot and the first unused
    /// child entry of `dir` holds that slot. Unchanged where the creation
    /// fails.
    pub open spec fn create_child_directory(self, dir: int, name: Seq<u8>) -> NamespaceView {
        if self.create_child_directory_result(dir, name) is Ok {
            let slot = self.free_dir_slot();
            let pos = self.free_child_entry(dir);
            NamespaceView {
                dirs: self.dirs.update(slot, DirView::fresh(slot, name, dir)).update(
                    dir,
                    self.dirs[dir].with_child(pos, slot),
                ),
                ..self
            }
        } else {
            self
        }
    }

    /// What removing the child directory of `dir` named `name` returns: the
    /// slot that was freed, nothing where no child has that name, or the
    /// first of these errors that applies.
    pub open spec fn remove_child_directory_result(self, dir: int, name: Seq<u8>) -> Result<
        Option<usize>,
        ShellError,
    > {
        if !self.dir_live(dir) {
            Err(ShellError::NotFound)
        } else if name.len() == 0 {
            Err(ShellError::EmptyName)
        } else {
            match self.find_child_named(dir, name) {
                None => Ok(None),
                Some(target) => if self.holds_entries(target as int) {
                    Err(ShellError::HasChildren)
                } else {
                    Ok(Some(target))
                },
            }
        }
    }

    /// The namespace after the child directory of `dir` named `name` is
    /// removed: its slot holds the free record and the entry of `dir` that
    /// held it is unused. Unchanged where nothing is removed.
    pub open spec fn remove_child_directory(self, dir: int, name: Seq<u8>) -> NamespaceView {
        match self.remove_child_directory_result(dir, name) {
            Ok(Some(target)) => {
                let pos = self.named_position(dir, name);
                NamespaceView {
                    dirs: self.dirs.update(target as int, DirView::free()).update(
                        dir,
                        self.dirs[dir].without_child(pos),
                    ),
                    ..self
                }
            },
            _ => self,
        }
    }

    /// What creating a file named `name` in `dir` returns: the slot of the
    /// new file, the lowest free one, or the first of these errors that
    /// applies.
    pub open spec fn create_file_result(self, dir: int, name: Seq<u8>) -> Result<
        usize,
        ShellError,
    > {
        if !self.dir_live(dir) {
            Err(ShellError::NotFound)
        } else if name.len() == 0 {
            Err(ShellError::EmptyName)
        } else if name.len() > MAX_SIZE_DIRECTORY_NAME {
            Err(ShellError::NameTooLong)
        } else if self.find_file_by_name(dir, name) is Some {
            Err(ShellError::DuplicateName)
        } else if self.free_file_entry(dir) >= MAX_SIZE_FILES_IN_DIRECTORY {
            Err(ShellError::CapacityExceeded(Capacity::FilesPerDirectory))
        } else if self.free_file_slot() >= MAX_SIZE_FILES {
            Err(ShellError::CapacityExceeded(Capacity::Files))
        } else {
            Ok(self.free_file_slot() as usize)
        }
    }

    /// The namespace after a file named `name` is created in `dir`: the
    /// new record stands in the lowest free slot and the first unused file
    /// entry of `dir` holds that slot. Unchanged where the creation fails.
    pub open spec fn create_file(self, dir: int, name: Seq<u8>) -> NamespaceView {
        if self.create_file_result(dir, name) is Ok {
            let slot = self.free_file_slot();
            let pos = self.free_file_entry(dir);
            NamespaceView {
                dirs: self.dirs.update(dir, self.dirs[dir].with_file(pos, slot)),
                files: self.files.update(slot, FileView::fresh(slot, name, dir)),
            }
        } else {
            self
        }
    }

    /// What removing the file of `dir` that `name` finds returns: the slot
    /// that was freed, or the first of these errors that applies.
    pub open spec fn remove_file_result(self, dir: int, name: Seq<u8>) -> Result<
        usize,
        ShellError,
    > {
        if !self.dir_live(dir) {
            Err(ShellError::NotFound)
        } else if name.len() == 0 {
            Err(ShellError::EmptyName)
        } else {
            match self.find_file_by_name(dir, name) {
                None => Err(ShellError::NotFound),
                Some(target) => Ok(target),
            }
        }
    }

    /// The namespace after the file of `dir` that `name` finds is removed:
    /// its slot holds the free record and the entry of `dir` that held it
    /// is unused. Unchanged where nothing is removed.
    pub open spec fn remove_file(self, dir: int, name: Seq<u8>) -> NamespaceView {
        match self.remove_file_result(dir, name) {
            Ok(target) => {
                let pos = self.file_position(dir, name);
                NamespaceView {
                    dirs: self.dirs.update(dir, self.dirs[dir].without_file(pos)),
                    files: self.files.update(target as int, FileView::free()),
                }
            },
            _ => self,
        }
    }

    /// The namespace with one more line counted for file `f`, up to the
    /// most a body holds.
    pub open spec fn add_line(self, f: int) -> NamespaceView {
        if self.file_live(f) && self.files[f].count_lines < MAX_LINES {
            NamespaceView {
                files: self.files.update(
                    f,
                    FileView {
                        count_lines: (self.files[f].count_lines + 1) as usize,
                        ..self.files[f]
                    },
                ),
                ..self
            }
        } else {
            self
        }
    }

    /// The namespace with no line counted for file `f`.
    pub open spec fn reset_lines(self, f: int) -> NamespaceView {
        if self.file_live(f) {
            NamespaceView {
                files: self.files.update(f, FileView { count_lines: 0, ..self.files[f] }),
                ..self
            }
        } else {
            self
        }
    }

    /// The namespace with `chars` as the body of file `f`.
    pub open spec fn store_body(self, f: int, chars: Seq<u8>) -> NamespaceView {
        if self.file_live(f) {
            NamespaceView {
                files: self.files.update(f, FileView { context: chars, ..self.files[f] }),
                ..self
            }
        } else {
            self
        }
    }

    /// The counted lines of the body of file `f`: one line's width of
    /// cells for each, from the start of the body.
    pub open spec fn dump_text(self, f: int) -> Seq<u8> {
        self.files[f].context.take(self.files[f].count_lines * LINE_WIDTH)
    }

    /// The path of directory `dir` from the root: a slash and the name for
    /// each directory on the way, the root first. The way up is followed
    /// for at most `fuel` directories.
    pub open spec fn path_text(self, dir: int, fuel: nat) -> Seq<u8>
        decreases fuel,
    {
        let segment = slash() + text_of(self.dirs[dir].name);
        if dir == ROOT_DIRECTORY || fuel == 0 {
            segment
        } else {
            self.path_text(self.dirs[dir].parent_index as int, (fuel - 1) as nat) + segment
        }
    }

    /// The listing of the file in entry `pos` of `dir`: indentation, a
    /// slash, the name, the suffix and a line end. Empty where the entry is
    /// unused.
    pub open spec fn file_entry_text(self, dir: int, depth: nat, pos: int) -> Seq<u8> {
        let f = self.dirs[dir].files_indexes[pos];
        if f == CLEAR_MARKER_FILE {
            Seq::empty()
        } else {
            indent(depth) + slash() + text_of(self.files[f as int].name) + file_suffix()
                + line_end()
        }
    }

    /// The listings of the files in the first `upto` entries of `dir`.
    pub open spec fn files_text(self, dir: int, depth: nat, upto: int) -> Seq<u8>
        decreases upto,
    {
        if upto <= 0 {
            Seq::empty()
        } else {
            self.files_text(dir, depth, upto - 1) + self.file_entry_text(dir, depth, upto - 1)
        }
    }

    /// The listing of the child directory in entry `pos` of `dir`:
    /// indentation, a slash, the name, and what it holds one level deeper.
    /// Empty where the entry is unused. With no `fuel` left the child is
    /// named and not entered.
    pub open spec fn child_entry_text(self, dir: int, depth: nat, fuel: nat, pos: int) -> Seq<u8>
        decreases fuel, 0nat, 0nat,
    {
        let c = self.dirs[dir].child_indexes[pos];
        if c == CLEAR_MARKER_DIRECTORY {
            Seq::empty()
        } else {
            indent(depth) + slash() + text_of(self.dirs[c as int].name) + if fuel == 0 {
                line_end()
            } else {
                self.contents_text(c as int, depth + 1, (fuel - 1) as nat)
            }
        }
    }

    /// The listings of the child directories in the first `upto` entries
    /// of `dir`.
    pub open spec fn children_text(self, dir: int, depth: nat, fuel: nat, upto: int) -> Seq<u8>
        decreases fuel, 1nat, upto,
    {
        if upto <= 0 {
            Seq::empty()
        } else {
            self.children_text(dir, depth, fuel, upto - 1) + self.child_entry_text(
                dir,
                depth,
                fuel,
                upto - 1,
            )
        }
    }

    /// What directory `dir` holds, listed at `depth`: a line end, the child
    /// directories in the order of their entries, each followed by what it
    /// holds, then the files in the order of theirs. Directories are
    /// entered `fuel` levels deep.
    pub open spec fn contents_text(self, dir: int, depth: nat, fuel: nat) -> Seq<u8>
        decreases fuel, 2nat, 0nat,
    {
        line_end() + self.children_text(dir, depth, fuel, MAX_SIZE_OF_CHILDREN_DIRECTORIES as int)
            + self.files_text(dir, depth, MAX_SIZE_FILES_IN_DIRECTORY as int)
    }

    /// The tree below directory `dir`: a slash, its name, and what it
    /// holds, listed one level in.
    pub open spec fn tree_text(self, dir: int) -> Seq<u8> {
        slash() + text_of(self.dirs[dir].name) + self.contents_text(
            dir,
            1,
            MAX_SIZE_OF_DIRECTORIES as nat,
        )
    }

    /// Entry `p` of the child entries of directory `i` is unused, or names
    /// a directory in use, other than the root and `i` itself, whose parent
    /// is `i`.
    pub open spec fn child_entry_wf(self, i: int, p: int) -> bool {
        let c = self.dirs[i].child_indexes[p] as int;
        c != CLEAR_MARKER_DIRECTORY ==> {
            &&& 0 < c < MAX_SIZE_OF_DIRECTORIES
            &&& c != i
            &&& self.dirs[c].index == c
            &&& self.dirs[c].parent_index == i
        }
    }

    /// Entry `p` of the file entries of directory `i` is unused, or names a
    /// file in use whose directory is `i`.
    pub open spec fn file_entry_wf(self, i: int, p: int) -> bool {
        let f = self.dirs[i].files_indexes[p] as int;
        f != CLEAR_MARKER_FILE ==> {
            &&& 0 <= f < MAX_SIZE_FILES
            &&& self.files[f].index == f
            &&& self.files[f].folder_index == i
        }
    }

    /// Entries `p` and `q` of the child entries of directory `i` do not
    /// hold two directories of one name.
    pub open spec fn child_names_differ(self, i: int, p: int, q: int) -> bool {
        let a = self.dirs[i].child_indexes[p];
        let b = self.dirs[i].child_indexes[q];
        a != CLEAR_MARKER_DIRECTORY && b != CLEAR_MARKER_DIRECTORY ==> self.dirs[a as int].name
            != self.dirs[b as int].name
    }

    /// Directory slot `i` holds the free record, or a record that carries
    /// the slot's number, whose parent is in use and lists it, whose child
    /// count is the number of its child entries in use, whose entries are
    /// well formed and name nothing twice, and whose child directories all
    /// differ in name.
    pub open spec fn dir_wf(self, i: int) -> bool {
        let d = self.dirs[i];
        &&& d.shape()
        &&& d.index == i || d == DirView::free()
        &&& d.index == i ==> {
            &&& self.dir_live(d.parent_index as int)
            &&& i != ROOT_DIRECTORY ==> self.dirs[d.parent_index as int].child_indexes.contains(
                i as usize,
            )
            &&& d.child_count == count_live(d.child_indexes, CLEAR_MARKER_DIRECTORY)
            &&& distinct_entries(d.child_indexes, CLEAR_MARKER_DIRECTORY)
            &&& distinct_entries(d.files_indexes, CLEAR_MARKER_FILE)
            &&& forall|p: int|
                0 <= p < MAX_SIZE_OF_CHILDREN_DIRECTORIES ==> #[trigger] self.child_entry_wf(i, p)
            &&& forall|p: int|
                0 <= p < MAX_SIZE_FILES_IN_DIRECTORY ==> #[trigger] self.file_entry_wf(i, p)
            &&& forall|p: int, q: int|
                0 <= p < MAX_SIZE_OF_CHILDREN_DIRECTORIES && 0 <= q
                    < MAX_SIZE_OF_CHILDREN_DIRECTORIES && p != q
                    ==> #[trigger] self.child_names_differ(i, p, q)
        }
    }

    /// File slot `f` holds the free record, or a record that carries the
    /// slot's number, whose directory is in use and lists it, and which
    /// counts no more lines than a body holds.
    pub open spec fn file_wf(self, f: int) -> bool {
        let file = self.files[f];
        &&& file.shape()
        &&& file.index == f || file == FileView::free()
        &&& file.index == f ==> {
            &&& self.dir_live(file.folder_index as int)
            &&& self.dirs[file.folder_index as int].files_indexes.contains(f as usize)
            &&& file.count_lines <= MAX_LINES
        }
    }

    /// Under `rank`, directory `i` stands above its parent.
    pub open spec fn rank_grows(self, rank: Seq<nat>, i: int) -> bool {
        self.dir_live(i) && i != ROOT_DIRECTORY ==> rank[self.dirs[i].parent_index as int]
            < rank[i]
    }

    /// `rank` grows from each directory in use to its children.
    pub open spec fn ranked(self, rank: Seq<nat>) -> bool {
        &&& rank.len() == self.dirs.len()
        &&& forall|i: int| 0 <= i < self.dirs.len() ==> #[trigger] self.rank_grows(rank, i)
    }

    /// The way up from any directory in use ends at the root: parents
    /// form no cycle.
    pub open spec fn rooted(self) -> bool {
        exists|rank: Seq<nat>| self.ranked(rank)
    }

    /// The namespace is well formed: every slot is there and well formed,
    /// the root is in use and is its own parent, and parents form no cycle.
    pub open spec fn wf(self) -> bool {
        &&& self.dirs.len() == MAX_SIZE_OF_DIRECTORIES
        &&& self.files.len() == MAX_SIZE_FILES
        &&& self.dirs[ROOT_DIRECTORY as int].index == ROOT_DIRECTORY
        &&& self.dirs[ROOT_DIRECTORY as int].parent_index == ROOT_DIRECTORY
        &&& forall|i: int| 0 <= i < MAX_SIZE_OF_DIRECTORIES ==> #[trigger] self.dir_wf(i)
        &&& forall|f: int| 0 <= f < MAX_SIZE_FILES ==> #[trigger] self.file_wf(f)
        &&& self.rooted()
    }
}

} // verus!
