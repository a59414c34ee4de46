//! The namespace: directories and files in fixed slot arrays.
//!
//! A new directory or file takes the lowest free slot, and the first unused
//! entry of the directory that lists it. Nothing is allocated after
//! [`Namespace::new`] but the texts that the listings return.

use crate::error::{Capacity, ShellError};
use crate::names::{
    first_index_of, is_name, lemma_first_index_of, lemma_first_index_of_is, lemma_text_of,
    make_name, matches_name, name_length, text_of, END_OF_TEXT, MAX_SIZE_DIRECTORY_NAME,
};
use crate::tree_proof::{
    lemma_add_line_wf, lemma_count_live_bound, lemma_count_live_positive,
    lemma_create_child_directory_wf, lemma_create_file_wf, lemma_initial_wf,
    lemma_remove_child_directory_wf, lemma_remove_file_wf, lemma_reset_lines_wf,
    lemma_store_body_wf,
};
use crate::tree_spec::{
    count_live, file_suffix, indent, line_end, root_name, slash, DirView, FileView,
    NamespaceView, BLANK, BODY_SIZE, CLEAR_MARKER_DIRECTORY, CLEAR_MARKER_FILE, INDENT_WIDTH,
    LINE_WIDTH, MAX_LINES, MAX_SIZE_FILES,
    MAX_SIZE_FILES_IN_DIRECTORY, MAX_SIZE_OF_CHILDREN_DIRECTORIES, MAX_SIZE_OF_DIRECTORIES,
    ROOT_DIRECTORY,
};
use vstd::prelude::*;
use vstd::slice::slice_subrange;

verus! {

/// A directory record.
#[derive(Clone, Copy, Debug)]
pub struct Dir {
    /// The slot of the record, or `CLEAR_MARKER_DIRECTORY` in a free slot.
    pub index: usize,
    /// The name, in cells.
    pub name: [u8; MAX_SIZE_DIRECTORY_NAME],
    /// The slot of the directory that lists this one.
    pub parent_index: usize,
    /// The number of child directories.
    pub child_count: usize,
    /// The slots of the child directories.
    pub child_indexes: [usize; MAX_SIZE_OF_CHILDREN_DIRECTORIES],
    /// The slots of the files.
    pub files_indexes: [usize; MAX_SIZE_FILES_IN_DIRECTORY],
}

/// A file record.
#[derive(Clone, Copy, Debug)]
pub struct File {
    /// The slot of the record, or `CLEAR_MARKER_FILE` in a free slot.
    pub index: usize,
    /// The name, in cells.
    pub name: [u8; MAX_SIZE_DIRECTORY_NAME],
    /// The number of lines of the body that count.
    pub count_lines: usize,
    /// The slot of the directory that lists this file.
    pub folder_index: usize,
    /// The body: the character cells of one display surface.
    pub context: [u8; BODY_SIZE],
}

impl View for Dir {
    type V = DirView;

    open spec fn view(&self) -> DirView {
        DirView {
            index: self.index,
            name: self.name@,
            parent_index: self.parent_index,
            child_count: self.child_count,
            child_indexes: self.child_indexes@,
            files_indexes: self.files_indexes@,
        }
    }
}

impl View for File {
    type V = FileView;

    open spec fn view(&self) -> FileView {
        FileView {
            index: self.index,
            name: self.name@,
            count_lines: self.count_lines,
            folder_index: self.folder_index,
            context: self.context@,
        }
    }
}

/// The directories and files of the shell.
pub struct Namespace {
    dirs: [Dir; MAX_SIZE_OF_DIRECTORIES],
    files: [File; MAX_SIZE_FILES],
}

impl View for Namespace {
    type V = NamespaceView;

    closed spec fn view(&self) -> NamespaceView {
        NamespaceView {
            dirs: Seq::new(MAX_SIZE_OF_DIRECTORIES as nat, |i: int| self.dirs[i]@),
            files: Seq::new(MAX_SIZE_FILES as nat, |i: int| self.files[i]@),
        }
    }
}

fn free_dir() -> (d: Dir)
    ensures
        d@ == DirView::free(),
{
    let d = Dir {
        index: CLEAR_MARKER_DIRECTORY,
        name: [BLANK; MAX_SIZE_DIRECTORY_NAME],
        parent_index: CLEAR_MARKER_DIRECTORY,
        child_count: 0,
        child_indexes: [CLEAR_MARKER_DIRECTORY; MAX_SIZE_OF_CHILDREN_DIRECTORIES],
        files_indexes: [CLEAR_MARKER_FILE; MAX_SIZE_FILES_IN_DIRECTORY],
    };
    assert(d@.name =~= DirView::free().name);
    assert(d@.child_indexes =~= DirView::free().child_indexes);
    assert(d@.files_indexes =~= DirView::free().files_indexes);
    d
}

fn fresh_dir(slot: usize, name: &[u8], parent: usize) -> (d: Dir)
    ensures
        d@ == DirView::fresh(slot as int, text_of(name@), parent as int),
{
    let d = Dir {
        index: slot,
        name: make_name(name),
        parent_index: parent,
        child_count: 0,
        child_indexes: [CLEAR_MARKER_DIRECTORY; MAX_SIZE_OF_CHILDREN_DIRECTORIES],
        files_indexes: [CLEAR_MARKER_FILE; MAX_SIZE_FILES_IN_DIRECTORY],
    };
    let ghost fresh = DirView::fresh(slot as int, text_of(name@), parent as int);
    assert(d@.child_indexes =~= fresh.child_indexes);
    assert(d@.files_indexes =~= fresh.files_indexes);
    d
}

fn free_file() -> (f: File)
    ensures
        f@ == FileView::free(),
{
    let f = File {
        index: CLEAR_MARKER_FILE,
        name: [END_OF_TEXT; MAX_SIZE_DIRECTORY_NAME],
        count_lines: 0,
        folder_index: CLEAR_MARKER_DIRECTORY,
        context: [BLANK; BODY_SIZE],
    };
    assert(f@.name =~= FileView::free().name);
    assert(f@.context =~= FileView::free().context);
    f
}

fn fresh_file(slot: usize, name: &[u8], folder: usize) -> (f: File)
    ensures
        f@ == FileView::fresh(slot as int, text_of(name@), folder as int),
{
    let f = File {
        index: slot,
        name: make_name(name),
        count_lines: 0,
        folder_index: folder,
        context: [BLANK; BODY_SIZE],
    };
    assert(f@.context =~= FileView::fresh(slot as int, text_of(name@), folder as int).context);
    f
}

/// The position of the first unused entry, or the number of entries.
fn first_unused<const N: usize>(entries: &[usize; N], free: usize) -> (pos: usize)
    ensures
        pos == first_index_of(entries@, free, 0),
        pos <= N,
{
    let mut pos: usize = 0;
    while pos < N && entries[pos] != free
        invariant
            pos <= N,
            forall|k: int| 0 <= k < pos ==> entries@[k] != free,
        decreases N - pos,
    {
        pos += 1;
    }
    proof {
        lemma_first_index_of_is(entries@, free, 0, pos as int);
    }
    pos
}

/// Whether any entry is in use.
fn any_used<const N: usize>(entries: &[usize; N], free: usize) -> (used: bool)
    ensures
        used == (count_live(entries@, free) > 0),
{
    let mut pos: usize = 0;
    while pos < N
        invariant
            pos <= N,
            forall|k: int| 0 <= k < pos ==> entries@[k] == free,
        decreases N - pos,
    {
        if entries[pos] != free {
            proof {
                lemma_count_live_positive(entries@, free, pos as int);
            }
            return true;
        }
        pos += 1;
    }
    proof {
        if count_live(entries@, free) > 0 {
            lemma_all_unused(entries@, free);
        }
    }
    false
}

proof fn lemma_all_unused(entries: Seq<usize>, free: usize)
    requires
        forall|k: int| 0 <= k < entries.len() ==> entries[k] == free,
    ensures
        count_live(entries, free) == 0,
    decreases entries.len(),
{
    if entries.len() > 0 {
        lemma_all_unused(entries.drop_last(), free);
    }
}

/// Appends `bytes` to `out`.
fn append_bytes(out: &mut Vec<u8>, bytes: &[u8])
    ensures
        final(out)@ == old(out)@ + bytes@,
{
    let mut i: usize = 0;
    while i < bytes.len()
        invariant
            i <= bytes@.len(),
            out@ == old(out)@ + bytes@.take(i as int),
        decreases bytes@.len() - i,
    {
        out.push(bytes[i]);
        assert(bytes@.take(i + 1) =~= bytes@.take(i as int).push(bytes@[i as int]));
        assert(out@ =~= old(out)@ + bytes@.take(i + 1));
        i += 1;
    }
    assert(bytes@.take(bytes@.len() as int) =~= bytes@);
}

/// Appends the text held in `cells` to `out`.
fn append_text(out: &mut Vec<u8>, cells: &[u8; MAX_SIZE_DIRECTORY_NAME])
    ensures
        final(out)@ == old(out)@ + text_of(cells@),
{
    let len = name_length(cells.as_slice());
    proof {
        lemma_text_of(cells@);
    }
    let text = slice_subrange(cells.as_slice(), 0, len);
    append_bytes(out, text);
}

/// Appends `depth` levels of indentation to `out`.
fn append_indent(out: &mut Vec<u8>, depth: usize)
    requires
        depth <= MAX_SIZE_OF_DIRECTORIES + 1,
    ensures
        final(out)@ == old(out)@ + indent(depth as nat),
{
    let mut i: usize = 0;
    while i < INDENT_WIDTH * depth
        invariant
            depth <= MAX_SIZE_OF_DIRECTORIES + 1,
            i <= INDENT_WIDTH * depth,
            out@ == old(out)@ + indent(depth as nat).take(i as int),
        decreases INDENT_WIDTH * depth - i,
    {
        out.push(BLANK);
        assert(out@ =~= old(out)@ + indent(depth as nat).take(i + 1));
        i += 1;
    }
    assert(indent(depth as nat).take(INDENT_WIDTH * depth) =~= indent(depth as nat));
}

impl Namespace {
    /// The namespace is well formed.
    pub open spec fn wf(&self) -> bool {
        self@.wf()
    }

    /// The namespace with the root directory alone.
    pub fn new() -> (ns: Namespace)
        ensures
            ns.wf(),
            ns@ == NamespaceView::initial(),
    {
        let name: [u8; 4] = [0x72, 0x6f, 0x6f, 0x74];
        let mut ns = Namespace {
            dirs: [free_dir(); MAX_SIZE_OF_DIRECTORIES],
            files: [free_file(); MAX_SIZE_FILES],
        };
        ns.dirs[ROOT_DIRECTORY] = fresh_dir(ROOT_DIRECTORY, name.as_slice(), ROOT_DIRECTORY);
        proof {
            lemma_first_index_of_is(name@, END_OF_TEXT, 0, 4);
            assert(text_of(name@) =~= root_name());
            assert(ns@.dirs =~= NamespaceView::initial().dirs);
            assert(ns@.files =~= NamespaceView::initial().files);
            lemma_initial_wf();
        }
        ns
    }

    /// Whether slot `dir` holds a directory.
    pub fn is_directory(&self, dir: usize) -> (live: bool)
        ensures
            live == self@.dir_live(dir as int),
    {
        dir < MAX_SIZE_OF_DIRECTORIES && self.dirs[dir].index != CLEAR_MARKER_DIRECTORY
    }

    /// Whether slot `file` holds a file.
    pub fn is_file(&self, file: usize) -> (live: bool)
        ensures
            live == self@.file_live(file as int),
    {
        file < MAX_SIZE_FILES && self.files[file].index != CLEAR_MARKER_FILE
    }

    /// The record in directory slot `dir`, where the slot is in use.
    pub fn directory(&self, dir: usize) -> (record: Option<Dir>)
        ensures
            record is Some == self@.dir_live(dir as int),
            record is Some ==> record->0@ == self@.dirs[dir as int],
    {
        if self.is_directory(dir) {
            Some(self.dirs[dir])
        } else {
            None
        }
    }

    /// The record in file slot `file`, where the slot is in use.
    pub fn file(&self, file: usize) -> (record: Option<File>)
        ensures
            record is Some == self@.file_live(file as int),
            record is Some ==> record->0@ == self@.files[file as int],
    {
        if self.is_file(file) {
            Some(self.files[file])
        } else {
            None
        }
    }

    /// The slot of the parent of directory `dir`; the root is its own
    /// parent.
    pub fn parent_of(&self, dir: usize) -> (parent: usize)
        requires
            self.wf(),
            self@.dir_live(dir as int),
        ensures
            parent == self@.dirs[dir as int].parent_index,
            self@.dir_live(parent as int),
    {
        proof {
            assert(self@.dir_wf(dir as int));
        }
        self.dirs[dir].parent_index
    }

    /// The lowest free directory slot, or the number of slots where none
    /// is free.
    pub fn free_dir_slot(&self) -> (slot: usize)
        ensures
            slot == self@.free_dir_slot(),
            slot <= MAX_SIZE_OF_DIRECTORIES,
            slot < MAX_SIZE_OF_DIRECTORIES ==> !self@.dir_live(slot as int),
            forall|k: int| 0 <= k < slot ==> self@.dir_live(k),
    {
        let mut slot: usize = 0;
        while slot < MAX_SIZE_OF_DIRECTORIES && self.dirs[slot].index != CLEAR_MARKER_DIRECTORY
            invariant
                slot <= MAX_SIZE_OF_DIRECTORIES,
                forall|k: int| 0 <= k < slot ==> self@.dir_indexes()[k] != CLEAR_MARKER_DIRECTORY,
            decreases MAX_SIZE_OF_DIRECTORIES - slot,
        {
            slot += 1;
        }
        proof {
            lemma_first_index_of_is(self@.dir_indexes(), CLEAR_MARKER_DIRECTORY, 0, slot as int);
            assert forall|k: int| 0 <= k < slot implies self@.dir_live(k) by {
                assert(self@.dir_indexes()[k] != CLEAR_MARKER_DIRECTORY);
            }
        }
        slot
    }

    /// The lowest free file slot, or the number of slots where none is
    /// free.
    pub fn free_file_slot(&self) -> (slot: usize)
        ensures
            slot == self@.free_file_slot(),
            slot <= MAX_SIZE_FILES,
            slot < MAX_SIZE_FILES ==> !self@.file_live(slot as int),
            forall|k: int| 0 <= k < slot ==> self@.file_live(k),
    {
        let mut slot: usize = 0;
        while slot < MAX_SIZE_FILES && self.files[slot].index != CLEAR_MARKER_FILE
            invariant
                slot <= MAX_SIZE_FILES,
                forall|k: int| 0 <= k < slot ==> self@.file_indexes()[k] != CLEAR_MARKER_FILE,
            decreases MAX_SIZE_FILES - slot,
        {
            slot += 1;
        }
        proof {
            lemma_first_index_of_is(self@.file_indexes(), CLEAR_MARKER_FILE, 0, slot as int);
            assert forall|k: int| 0 <= k < slot implies self@.file_live(k) by {
                assert(self@.file_indexes()[k] != CLEAR_MARKER_FILE);
            }
        }
        slot
    }

    fn child_position(&self, dir: usize, name: &[u8]) -> (pos: usize)
        requires
            self.wf(),
            self@.dir_live(dir as int),
        ensures
            pos == self@.child_position(dir as int, text_of(name@)),
            pos <= MAX_SIZE_OF_CHILDREN_DIRECTORIES,
    {
        let ghost hits = self@.child_hits(dir as int, text_of(name@));
        proof {
            assert(self@.dir_wf(dir as int));
        }
        let mut pos: usize = 0;
        while pos < MAX_SIZE_OF_CHILDREN_DIRECTORIES
            invariant
                pos <= MAX_SIZE_OF_CHILDREN_DIRECTORIES,
                self.wf(),
                self@.dir_live(dir as int),
                hits == self@.child_hits(dir as int, text_of(name@)),
                hits.len() == MAX_SIZE_OF_CHILDREN_DIRECTORIES,
                forall|k: int| 0 <= k < pos ==> !hits[k],
            decreases MAX_SIZE_OF_CHILDREN_DIRECTORIES - pos,
        {
            let child = self.dirs[dir].child_indexes[pos];
            if child != CLEAR_MARKER_DIRECTORY {
                proof {
                    assert(self@.dir_wf(dir as int));
                    assert(self@.child_entry_wf(dir as int, pos as int));
                }
                if matches_name(name, &self.dirs[child].name) {
                    proof {
                        lemma_first_index_of_is(hits, true, 0, pos as int);
                    }
                    return pos;
                }
            }
            pos += 1;
        }
        proof {
            lemma_first_index_of_is(hits, true, 0, MAX_SIZE_OF_CHILDREN_DIRECTORIES as int);
        }
        pos
    }

    fn named_position(&self, dir: usize, name: &[u8]) -> (pos: usize)
        requires
            self.wf(),
            self@.dir_live(dir as int),
        ensures
            pos == self@.named_position(dir as int, text_of(name@)),
            pos <= MAX_SIZE_OF_CHILDREN_DIRECTORIES,
    {
        let ghost hits = self@.named_hits(dir as int, text_of(name@));
        proof {
            assert(self@.dir_wf(dir as int));
        }
        let mut pos: usize = 0;
        while pos < MAX_SIZE_OF_CHILDREN_DIRECTORIES
            invariant
                pos <= MAX_SIZE_OF_CHILDREN_DIRECTORIES,
                self.wf(),
                self@.dir_live(dir as int),
                hits == self@.named_hits(dir as int, text_of(name@)),
                hits.len() == MAX_SIZE_OF_CHILDREN_DIRECTORIES,
                forall|k: int| 0 <= k < pos ==> !hits[k],
            decreases MAX_SIZE_OF_CHILDREN_DIRECTORIES - pos,
        {
            let child = self.dirs[dir].child_indexes[pos];
            if child != CLEAR_MARKER_DIRECTORY {
                proof {
                    assert(self@.dir_wf(dir as int));
                    assert(self@.child_entry_wf(dir as int, pos as int));
                }
                if is_name(name, &self.dirs[child].name) {
                    proof {
                        lemma_first_index_of_is(hits, true, 0, pos as int);
                    }
                    return pos;
                }
            }
            pos += 1;
        }
        proof {
            lemma_first_index_of_is(hits, true, 0, MAX_SIZE_OF_CHILDREN_DIRECTORIES as int);
        }
        pos
    }

    fn file_position(&self, dir: usize, name: &[u8]) -> (pos: usize)
        requires
            self.wf(),
            self@.dir_live(dir as int),
        ensures
            pos == self@.file_position(dir as int, text_of(name@)),
            pos <= MAX_SIZE_FILES_IN_DIRECTORY,
    {
        let ghost hits = self@.file_hits(dir as int, text_of(name@));
        proof {
            assert(self@.dir_wf(dir as int));
        }
        let mut pos: usize = 0;
        while pos < MAX_SIZE_FILES_IN_DIRECTORY
            invariant
                pos <= MAX_SIZE_FILES_IN_DIRECTORY,
                self.wf(),
                self@.dir_live(dir as int),
                hits == self@.file_hits(dir as int, text_of(name@)),
                hits.len() == MAX_SIZE_FILES_IN_DIRECTORY,
                forall|k: int| 0 <= k < pos ==> !hits[k],
            decreases MAX_SIZE_FILES_IN_DIRECTORY - pos,
        {
            let file = self.dirs[dir].files_indexes[pos];
            if file != CLEAR_MARKER_FILE {
                proof {
                    assert(self@.dir_wf(dir as int));
                    assert(self@.file_entry_wf(dir as int, pos as int));
                }
                if matches_name(name, &self.files[file].name) {
                    proof {
                        lemma_first_index_of_is(hits, true, 0, pos as int);
                    }
                    return pos;
                }
            }
            pos += 1;
        }
        proof {
            lemma_first_index_of_is(hits, true, 0, MAX_SIZE_FILES_IN_DIRECTORY as int);
        }
        pos
    }

    /// Finds the child directory of `dir` that the text held in `name`
    /// finds: the first in the order of the entries of `dir` whose name
    /// starts with that text.
    pub fn find_child_by_name(&self, dir: usize, name: &[u8]) -> (found: Option<usize>)
        requires
            self.wf(),
        ensures
            found == self@.find_child_by_name(dir as int, text_of(name@)),
            found is Some ==> self@.dir_live(found->0 as int),
    {
        if !self.is_directory(dir) {
            return None;
        }
        let pos = self.child_position(dir, name);
        if pos < MAX_SIZE_OF_CHILDREN_DIRECTORIES {
            proof {
                let hits = self@.child_hits(dir as int, text_of(name@));
                assert(self@.dir_wf(dir as int));
                lemma_first_index_of(hits, true, 0);
                assert(hits[pos as int]);
                assert(self@.child_entry_wf(dir as int, pos as int));
            }
            Some(self.dirs[dir].child_indexes[pos])
        } else {
            None
        }
    }

    /// Finds the child directory of `dir` whose name is the text held in
    /// `name`. All cells of the name are compared: a text that only starts
    /// a name does not name it.
    pub fn find_child_named(&self, dir: usize, name: &[u8]) -> (found: Option<usize>)
        requires
            self.wf(),
        ensures
            found == self@.find_child_named(dir as int, text_of(name@)),
            found is Some ==> self@.dir_live(found->0 as int),
    {
        if !self.is_directory(dir) {
            return None;
        }
        let pos = self.named_position(dir, name);
        if pos < MAX_SIZE_OF_CHILDREN_DIRECTORIES {
            proof {
                let hits = self@.named_hits(dir as int, text_of(name@));
                assert(self@.dir_wf(dir as int));
                lemma_first_index_of(hits, true, 0);
                assert(hits[pos as int]);
                assert(self@.child_entry_wf(dir as int, pos as int));
            }
            Some(self.dirs[dir].child_indexes[pos])
        } else {
            None
        }
    }

    /// Finds the file of `dir` that the text held in `name` finds: the
    /// first in the order of the entries of `dir` whose name starts with
    /// that text.
    pub fn find_file_by_name(&self, dir: usize, name: &[u8]) -> (found: Option<usize>)
        requires
            self.wf(),
        ensures
            found == self@.find_file_by_name(dir as int, text_of(name@)),
            found is Some ==> self@.file_live(found->0 as int),
    {
        if !self.is_directory(dir) {
            return None;
        }
        let pos = self.file_position(dir, name);
        if pos < MAX_SIZE_FILES_IN_DIRECTORY {
            proof {
                let hits = self@.file_hits(dir as int, text_of(name@));
                assert(self@.dir_wf(dir as int));
                lemma_first_index_of(hits, true, 0);
                assert(hits[pos as int]);
                assert(self@.file_entry_wf(dir as int, pos as int));
            }
            Some(self.dirs[dir].files_indexes[pos])
        } else {
            None
        }
    }

    /// Creates a directory in `dir`, named by the text held in `name`, and
    /// returns its slot.
    pub fn create_child_directory(&mut self, dir: usize, name: &[u8]) -> (created: Result<
        usize,
        ShellError,
    >)
        requires
            old(self).wf(),
        ensures
            final(self).wf(),
            created == old(self)@.create_child_directory_result(dir as int, text_of(name@)),
            final(self)@ == old(self)@.create_child_directory(dir as int, text_of(name@)),
    {
        proof {
            lemma_text_of(name@);
            lemma_create_child_directory_wf(self@, dir as int, text_of(name@));
        }
        if !self.is_directory(dir) {
            return Err(ShellError::NotFound);
        }
        let len = name_length(name);
        if len == 0 {
            return Err(ShellError::EmptyName);
        }
        if len > MAX_SIZE_DIRECTORY_NAME {
            return Err(ShellError::NameTooLong);
        }
        if self.child_position(dir, name) < MAX_SIZE_OF_CHILDREN_DIRECTORIES {
            return Err(ShellError::DuplicateName);
        }
        let slot = self.free_dir_slot();
        if slot >= MAX_SIZE_OF_DIRECTORIES {
            return Err(ShellError::CapacityExceeded(Capacity::Directories));
        }
        let pos = first_unused(&self.dirs[dir].child_indexes, CLEAR_MARKER_DIRECTORY);
        if pos >= MAX_SIZE_OF_CHILDREN_DIRECTORIES {
            return Err(ShellError::CapacityExceeded(Capacity::ChildrenPerDirectory));
        }
        proof {
            assert(self@.dir_wf(dir as int));
            lemma_count_live_bound(self@.dirs[dir as int].child_indexes, CLEAR_MARKER_DIRECTORY);
            lemma_first_index_of(self@.dir_indexes(), CLEAR_MARKER_DIRECTORY, 0);
            assert(self@.dir_indexes()[slot as int] == CLEAR_MARKER_DIRECTORY);
            assert(slot != dir);
        }
        self.dirs[slot] = fresh_dir(slot, name, dir);
        let mut parent = self.dirs[dir];
        parent.child_indexes[pos] = slot;
        parent.child_count = parent.child_count + 1;
        self.dirs[dir] = parent;
        proof {
            let expected = old(self)@.create_child_directory(dir as int, text_of(name@));
            assert(self@.dirs =~= expected.dirs);
            assert(self@.files =~= expected.files);
        }
        Ok(slot)
    }

    /// Removes the child directory of `dir` whose name is the text held in
    /// `name`, and returns the slot it had. Where no child has that name,
    /// nothing is removed and nothing returned.
    pub fn remove_child_directory(&mut self, dir: usize, name: &[u8]) -> (removed: Result<
        Option<usize>,
        ShellError,
    >)
        requires
            old(self).wf(),
        ensures
            final(self).wf(),
            removed == old(self)@.remove_child_directory_result(dir as int, text_of(name@)),
            final(self)@ == old(self)@.remove_child_directory(dir as int, text_of(name@)),
    {
        proof {
            lemma_text_of(name@);
            lemma_remove_child_directory_wf(self@, dir as int, text_of(name@));
        }
        if !self.is_directory(dir) {
            return Err(ShellError::NotFound);
        }
        if name_length(name) == 0 {
            return Err(ShellError::EmptyName);
        }
        let pos = self.named_position(dir, name);
        if pos >= MAX_SIZE_OF_CHILDREN_DIRECTORIES {
            return Ok(None);
        }
        proof {
            let hits = self@.named_hits(dir as int, text_of(name@));
            assert(self@.dir_wf(dir as int));
            lemma_first_index_of(hits, true, 0);
            assert(hits[pos as int]);
            assert(self@.child_entry_wf(dir as int, pos as int));
        }
        let target = self.dirs[dir].child_indexes[pos];
        if self.dirs[target].child_count > 0 || any_used(
            &self.dirs[target].files_indexes,
            CLEAR_MARKER_FILE,
        ) {
            return Err(ShellError::HasChildren);
        }
        proof {
            lemma_count_live_positive(
                self@.dirs[dir as int].child_indexes,
                CLEAR_MARKER_DIRECTORY,
                pos as int,
            );
        }
        self.dirs[target] = free_dir();
        let mut parent = self.dirs[dir];
        parent.child_indexes[pos] = CLEAR_MARKER_DIRECTORY;
        parent.child_count = parent.child_count - 1;
        self.dirs[dir] = parent;
        proof {
            let expected = old(self)@.remove_child_directory(dir as int, text_of(name@));
            assert(self@.dirs =~= expected.dirs);
            assert(self@.files =~= expected.files);
        }
        Ok(Some(target))
    }

    /// Creates a file in `dir`, named by the text held in `name`, and
    /// returns its slot.
    pub fn create_file(&mut self, dir: usize, name: &[u8]) -> (created: Result<usize, ShellError>)
        requires
            old(self).wf(),
        ensures
            final(self).wf(),
            created == old(self)@.create_file_result(dir as int, text_of(name@)),
            final(self)@ == old(self)@.create_file(dir as int, text_of(name@)),
    {
        proof {
            lemma_text_of(name@);
            lemma_create_file_wf(self@, dir as int, text_of(name@));
        }
        if !self.is_directory(dir) {
            return Err(ShellError::NotFound);
        }
        let len = name_length(name);
        if len == 0 {
            return Err(ShellError::EmptyName);
        }
        if len > MAX_SIZE_DIRECTORY_NAME {
            return Err(ShellError::NameTooLong);
        }
        if self.file_position(dir, name) < MAX_SIZE_FILES_IN_DIRECTORY {
            return Err(ShellError::DuplicateName);
        }
        let pos = first_unused(&self.dirs[dir].files_indexes, CLEAR_MARKER_FILE);
        if pos >= MAX_SIZE_FILES_IN_DIRECTORY {
            return Err(ShellError::CapacityExceeded(Capacity::FilesPerDirectory));
        }
        let slot = self.free_file_slot();
        if slot >= MAX_SIZE_FILES {
            return Err(ShellError::CapacityExceeded(Capacity::Files));
        }
        self.files[slot] = fresh_file(slot, name, dir);
        let mut folder = self.dirs[dir];
        folder.files_indexes[pos] = slot;
        self.dirs[dir] = folder;
        proof {
            let expected = old(self)@.create_file(dir as int, text_of(name@));
            assert(self@.dirs =~= expected.dirs);
            assert(self@.files =~= expected.files);
        }
        Ok(slot)
    }

    /// Removes the file of `dir` that the text held in `name` finds, and
    /// returns the slot it had.
    pub fn remove_file(&mut self, dir: usize, name: &[u8]) -> (removed: Result<usize, ShellError>)
        requires
            old(self).wf(),
        ensures
            final(self).wf(),
            removed == old(self)@.remove_file_result(dir as int, text_of(name@)),
            final(self)@ == old(self)@.remove_file(dir as int, text_of(name@)),
    {
        proof {
            lemma_text_of(name@);
            lemma_remove_file_wf(self@, dir as int, text_of(name@));
        }
        if !self.is_directory(dir) {
            return Err(ShellError::NotFound);
        }
        if name_length(name) == 0 {
            return Err(ShellError::EmptyName);
        }
        let pos = self.file_position(dir, name);
        if pos >= MAX_SIZE_FILES_IN_DIRECTORY {
            return Err(ShellError::NotFound);
        }
        proof {
            let hits = self@.file_hits(dir as int, text_of(name@));
            assert(self@.dir_wf(dir as int));
            lemma_first_index_of(hits, true, 0);
            assert(hits[pos as int]);
            assert(self@.file_entry_wf(dir as int, pos as int));
        }
        let target = self.dirs[dir].files_indexes[pos];
        self.files[target] = free_file();
        let mut folder = self.dirs[dir];
        folder.files_indexes[pos] = CLEAR_MARKER_FILE;
        self.dirs[dir] = folder;
        proof {
            let expected = old(self)@.remove_file(dir as int, text_of(name@));
            assert(self@.dirs =~= expected.dirs);
            assert(self@.files =~= expected.files);
        }
        Ok(target)
    }

    /// Counts one more line for file `file`, up to the most a body holds.
    /// Nothing changes where the slot holds no file.
    pub fn add_line(&mut self, file: usize)
        requires
            old(self).wf(),
        ensures
            final(self).wf(),
            final(self)@ == old(self)@.add_line(file as int),
    {
        proof {
            lemma_add_line_wf(self@, file as int);
        }
        if self.is_file(file) && self.files[file].count_lines < MAX_LINES {
            let mut record = self.files[file];
            record.count_lines = record.count_lines + 1;
            self.files[file] = record;
            proof {
                let expected = old(self)@.add_line(file as int);
                assert(self@.dirs =~= expected.dirs);
                assert(self@.files =~= expected.files);
            }
        }
    }

    /// Counts no line for file `file`. Nothing changes where the slot
    /// holds no file.
    pub fn reset_lines(&mut self, file: usize)
        requires
            old(self).wf(),
        ensures
            final(self).wf(),
            final(self)@ == old(self)@.reset_lines(file as int),
    {
        proof {
            lemma_reset_lines_wf(self@, file as int);
        }
        if self.is_file(file) {
            let mut record = self.files[file];
            record.count_lines = 0;
            self.files[file] = record;
            proof {
                let expected = old(self)@.reset_lines(file as int);
                assert(self@.dirs =~= expected.dirs);
                assert(self@.files =~= expected.files);
            }
        }
    }

    /// Makes `chars` the body of file `file`. Nothing changes where the
    /// slot holds no file.
    pub fn store_body(&mut self, file: usize, chars: [u8; BODY_SIZE])
        requires
            old(self).wf(),
        ensures
            final(self).wf(),
            final(self)@ == old(self)@.store_body(file as int, chars@),
    {
        proof {
            lemma_store_body_wf(self@, file as int, chars@);
        }
        if self.is_file(file) {
            let mut record = self.files[file];
            record.context = chars;
            self.files[file] = record;
            proof {
                let expected = old(self)@.store_body(file as int, chars@);
                assert(self@.dirs =~= expected.dirs);
                assert(self@.files =~= expected.files);
            }
        }
    }

    /// The counted lines of the body of file `file`.
    pub fn dump_file(&self, file: usize) -> (text: Vec<u8>)
        requires
            self.wf(),
            self@.file_live(file as int),
        ensures
            text@ == self@.dump_text(file as int),
    {
        proof {
            assert(self@.file_wf(file as int));
        }
        let count = self.files[file].count_lines * LINE_WIDTH;
        let mut text: Vec<u8> = Vec::new();
        let body = slice_subrange(self.files[file].context.as_slice(), 0, count);
        append_bytes(&mut text, body);
        assert(text@ =~= self@.dump_text(file as int));
        text
    }

    fn path_into(&self, dir: usize, fuel: usize, out: &mut Vec<u8>)
        requires
            self.wf(),
            self@.dir_live(dir as int),
        ensures
            final(out)@ == old(out)@ + self@.path_text(dir as int, fuel as nat),
        decreases fuel,
    {
        proof {
            assert(self@.dir_wf(dir as int));
        }
        if dir != ROOT_DIRECTORY && fuel > 0 {
            self.path_into(self.dirs[dir].parent_index, fuel - 1, out);
        }
        let ghost upper = out@;
        out.push(0x2f);
        append_text(out, &self.dirs[dir].name);
        assert(out@ =~= upper + (slash() + text_of(self@.dirs[dir as int].name)));
        assert(out@ =~= old(out)@ + self@.path_text(dir as int, fuel as nat));
    }

    /// The path of directory `dir` from the root: a slash and the name
    /// for each directory on the way down, the root first.
    pub fn resolve_path_display(&self, dir: usize) -> (path: Vec<u8>)
        requires
            self.wf(),
            self@.dir_live(dir as int),
        ensures
            path@ == self@.path_text(dir as int, MAX_SIZE_OF_DIRECTORIES as nat),
    {
        let mut path: Vec<u8> = Vec::new();
        self.path_into(dir, MAX_SIZE_OF_DIRECTORIES, &mut path);
        assert(path@ =~= self@.path_text(dir as int, MAX_SIZE_OF_DIRECTORIES as nat));
        path
    }

    fn files_into(&self, dir: usize, depth: usize, out: &mut Vec<u8>)
        requires
            self.wf(),
            self@.dir_live(dir as int),
            depth <= MAX_SIZE_OF_DIRECTORIES + 1,
        ensures
            final(out)@ == old(out)@ + self@.files_text(
                dir as int,
                depth as nat,
                MAX_SIZE_FILES_IN_DIRECTORY as int,
            ),
    {
        proof {
            assert(self@.dir_wf(dir as int));
        }
        let mut pos: usize = 0;
        assert(out@ =~= old(out)@ + self@.files_text(dir as int, depth as nat, 0));
        while pos < MAX_SIZE_FILES_IN_DIRECTORY
            invariant
                pos <= MAX_SIZE_FILES_IN_DIRECTORY,
                depth <= MAX_SIZE_OF_DIRECTORIES + 1,
                self.wf(),
                self@.dir_live(dir as int),
                self@.dir_wf(dir as int),
                out@ == old(out)@ + self@.files_text(dir as int, depth as nat, pos as int),
            decreases MAX_SIZE_FILES_IN_DIRECTORY - pos,
        {
            let ghost before = out@;
            let file = self.dirs[dir].files_indexes[pos];
            if file != CLEAR_MARKER_FILE {
                proof {
                    assert(self@.file_entry_wf(dir as int, pos as int));
                }
                let suffix: [u8; 4] = [0x2e, 0x74, 0x78, 0x74];
                append_indent(out, depth);
                out.push(0x2f);
                append_text(out, &self.files[file].name);
                append_bytes(out, suffix.as_slice());
                out.push(0x0a);
                assert(suffix@ =~= file_suffix());
                assert(out@ =~= before + self@.file_entry_text(
                    dir as int,
                    depth as nat,
                    pos as int,
                ));
            }
            assert(self@.files_text(dir as int, depth as nat, pos + 1) == self@.files_text(
                dir as int,
                depth as nat,
                pos as int,
            ) + self@.file_entry_text(dir as int, depth as nat, pos as int));
            assert(out@ =~= old(out)@ + self@.files_text(dir as int, depth as nat, pos + 1));
            pos += 1;
        }
    }

    fn contents_into(&self, dir: usize, depth: usize, fuel: usize, out: &mut Vec<u8>)
        requires
            self.wf(),
            self@.dir_live(dir as int),
            depth + fuel <= MAX_SIZE_OF_DIRECTORIES + 1,
        ensures
            final(out)@ == old(out)@ + self@.contents_text(dir as int, depth as nat, fuel as nat),
        decreases fuel,
    {
        proof {
            assert(self@.dir_wf(dir as int));
        }
        out.push(0x0a);
        let ghost start = out@;
        assert(start =~= old(out)@ + line_end());
        let mut pos: usize = 0;
        assert(out@ =~= start + self@.children_text(dir as int, depth as nat, fuel as nat, 0));
        while pos < MAX_SIZE_OF_CHILDREN_DIRECTORIES
            invariant
                pos <= MAX_SIZE_OF_CHILDREN_DIRECTORIES,
                depth + fuel <= MAX_SIZE_OF_DIRECTORIES + 1,
                self.wf(),
                self@.dir_live(dir as int),
                self@.dir_wf(dir as int),
                out@ == start + self@.children_text(
                    dir as int,
                    depth as nat,
                    fuel as nat,
                    pos as int,
                ),
            decreases MAX_SIZE_OF_CHILDREN_DIRECTORIES - pos,
        {
            let ghost before = out@;
            let child = self.dirs[dir].child_indexes[pos];
            if child != CLEAR_MARKER_DIRECTORY {
                proof {
                    assert(self@.child_entry_wf(dir as int, pos as int));
                }
                append_indent(out, depth);
                out.push(0x2f);
                append_text(out, &self.dirs[child].name);
                if fuel == 0 {
                    out.push(0x0a);
                } else {
                    self.contents_into(child, depth + 1, fuel - 1, out);
                }
                assert(out@ =~= before + self@.child_entry_text(
                    dir as int,
                    depth as nat,
                    fuel as nat,
                    pos as int,
                ));
            }
            assert(self@.children_text(dir as int, depth as nat, fuel as nat, pos + 1)
                == self@.children_text(dir as int, depth as nat, fuel as nat, pos as int)
                + self@.child_entry_text(dir as int, depth as nat, fuel as nat, pos as int));
            assert(out@ =~= start + self@.children_text(
                dir as int,
                depth as nat,
                fuel as nat,
                pos + 1,
            ));
            pos += 1;
        }
        self.files_into(dir, depth, out);
        assert(out@ =~= old(out)@ + self@.contents_text(dir as int, depth as nat, fuel as nat));
    }

    /// The tree below directory `dir`: its name, then each child directory
    /// with what it holds, one level further in, then its files.
    pub fn print_tree(&self, dir: usize) -> (text: Vec<u8>)
        requires
            self.wf(),
            self@.dir_live(dir as int),
        ensures
            text@ == self@.tree_text(dir as int),
    {
        let mut text: Vec<u8> = Vec::new();
        text.push(0x2f);
        append_text(&mut text, &self.dirs[dir].name);
        self.contents_into(dir, 1, MAX_SIZE_OF_DIRECTORIES, &mut text);
        assert(text@ =~= self@.tree_text(dir as int));
        text
    }
}

} // verus!
