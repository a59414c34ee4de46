//! The command shell: a line editor, a command interpreter and a file
//! editor, driven one keystroke at a time and drawing on a display surface.

use crate::error::{Capacity, ShellError};
use crate::keyboard::Key;
use crate::names::{
    cells_hold, lemma_first_index_of_is, lemma_text_of, name_length, text_of, END_OF_TEXT,
    MAX_SIZE_DIRECTORY_NAME,
};
use crate::shell_spec::{
    error_message, is_command, key_step, line_of, long_command, parent_name, prompt, quoted,
    split_argument,
    split_command, Mode, ShellView, Step, Subject, ARGUMENT_LENGTH, COMMAND_LENGTH,
    KEY_BACKSPACE, KEY_NEWLINE, KEY_SPACE, KEY_TERMINATOR, LINE_LENGTH, PARENT_MARK,
    PROMPT_WIDTH,
};
use crate::tree::Namespace;
use crate::tree_laws::{
    law_create_keeps_others, law_created_file_is_live, law_remove_file_keeps_others,
    law_remove_keeps_others,
};
use crate::tree_proof::lemma_initial_wf;
use crate::tree_spec::{line_end, CLEAR_MARKER_DIRECTORY, CLEAR_MARKER_FILE};
use crate::vga_buf::{lemma_print_concat, lemma_print_one, Screen};
use vstd::prelude::*;
use vstd::slice::slice_subrange;
use vstd::string::StringSliceAdditionalSpecFns;

verus! {

/// Splits the first `buf_len` cells of the input line at the first space
/// into the command token and the argument.
pub fn split(array: [u8; LINE_LENGTH], buf_len: usize) -> (parts: (
    [u8; COMMAND_LENGTH],
    [u8; ARGUMENT_LENGTH],
))
    ensures
        parts.0@ == split_command(line_of(array@, buf_len as int)),
        parts.1@ == split_argument(line_of(array@, buf_len as int)),
{
    let len: usize = if buf_len > LINE_LENGTH {
        LINE_LENGTH
    } else {
        buf_len
    };
    let ghost line = line_of(array@, buf_len as int);
    assert(line =~= array@.take(len as int));
    let mut command: [u8; COMMAND_LENGTH] = [END_OF_TEXT; COMMAND_LENGTH];
    let mut argument: [u8; ARGUMENT_LENGTH] = [END_OF_TEXT; ARGUMENT_LENGTH];
    let mut end: usize = 0;
    while end < len && array[end] != KEY_SPACE
        invariant
            end <= len <= LINE_LENGTH,
            line == array@.take(len as int),
            forall|k: int| 0 <= k < end ==> line[k] != KEY_SPACE,
        decreases len - end,
    {
        end += 1;
    }
    proof {
        lemma_first_index_of_is(line, KEY_SPACE, 0, end as int);
    }
    let mut i: usize = 0;
    while i < end && i < COMMAND_LENGTH
        invariant
            i <= end <= len <= LINE_LENGTH,
            i <= COMMAND_LENGTH,
            line == array@.take(len as int),
            forall|k: int| 0 <= k < i ==> command@[k] == line[k],
            forall|k: int| i <= k < COMMAND_LENGTH ==> command@[k] == END_OF_TEXT,
        decreases COMMAND_LENGTH - i,
    {
        command[i] = array[i];
        i += 1;
    }
    assert(command@ =~= split_command(line));
    if end < len {
        let start: usize = end + 1;
        let mut j: usize = 0;
        while j < ARGUMENT_LENGTH && start + j < len
            invariant
                start == end + 1,
                end < len <= LINE_LENGTH,
                j <= ARGUMENT_LENGTH,
                start + j <= len,
                line == array@.take(len as int),
                forall|k: int| 0 <= k < j ==> argument@[k] == line[start + k],
                forall|k: int| j <= k < ARGUMENT_LENGTH ==> argument@[k] == END_OF_TEXT,
            decreases ARGUMENT_LENGTH - j,
        {
            argument[j] = array[start + j];
            j += 1;
        }
        assert forall|k: int| 0 <= k < ARGUMENT_LENGTH implies argument@[k] == split_argument(
            line,
        )[k] by {
            let rest = line.skip(start as int);
            if k < rest.len() {
                assert(rest[k] == line[start + k]);
            }
        }
        assert(argument@ =~= split_argument(line));
    } else {
        assert(argument@ =~= split_argument(line));
    }
    (command, argument)
}

/// Whether the token in `array` is the command `line`: the cells hold the
/// command's name byte for byte and NUL after it.
pub fn compare(line: &str, array: [u8; COMMAND_LENGTH]) -> (same: bool)
    ensures
        same == is_command(array@, line.spec_bytes()),
{
    cells_hold(line.as_bytes(), &array)
}

/// Shows the prompt.
fn print_start(screen: &mut Screen)
    requires
        old(screen).wf(),
    ensures
        final(screen).wf(),
        final(screen)@ == old(screen)@.print(prompt()),
{
    screen.print(" $ ");
}

/// Shows the first prompt.
pub fn initialize(screen: &mut Screen)
    requires
        old(screen).wf(),
    ensures
        final(screen).wf(),
        final(screen)@ == old(screen)@.print(prompt()),
{
    print_start(screen);
}

/// Shows `before`, the text held in `name`, and `after`.
fn print_quoted(screen: &mut Screen, before: &str, name: &[u8], after: &str)
    requires
        old(screen).wf(),
    ensures
        final(screen).wf(),
        final(screen)@ == old(screen)@.print(
            quoted(before.spec_bytes(), text_of(name@), after.spec_bytes()),
        ),
{
    let len = name_length(name);
    proof {
        lemma_text_of(name@);
    }
    let text = slice_subrange(name, 0, len);
    screen.print(before);
    screen.print_bytes(text);
    screen.print(after);
    proof {
        lemma_print_concat(old(screen)@, before.spec_bytes(), text_of(name@));
        lemma_print_concat(
            old(screen)@,
            before.spec_bytes() + text_of(name@),
            after.spec_bytes(),
        );
    }
}

/// Shows the line that reports `error`.
fn report(screen: &mut Screen, error: ShellError, subject: Subject, name: &[u8])
    requires
        old(screen).wf(),
    ensures
        final(screen).wf(),
        final(screen)@ == old(screen)@.print(error_message(error, subject, text_of(name@))),
{
    match error {
        ShellError::EmptyName => match subject {
            Subject::Directory => screen.print("\n[Error] Specify a name of folder"),
            Subject::File => screen.print("\n[Error] Specify a name of file"),
        },
        ShellError::NameTooLong => screen.print(
            "\n[Error] The maximum number of characters has been exceeded",
        ),
        ShellError::DuplicateName => match subject {
            Subject::Directory => print_quoted(
                screen,
                "\n[Error] Directory \"",
                name,
                "\" already exist",
            ),
            Subject::File => print_quoted(screen, "\n[Error] File \"", name, "\" already exist"),
        },
        ShellError::CapacityExceeded(capacity) => match capacity {
            Capacity::Directories => screen.print("\n[Error] The maximum number of directories"),
            Capacity::ChildrenPerDirectory => screen.print(
                "\n[Error] The maximum number of children directories",
            ),
            Capacity::FilesPerDirectory => screen.print(
                "\n[Error] The maximum number of files in directory",
            ),
            Capacity::Files => screen.print("\n[Error] The maximum number of files"),
        },
        ShellError::NotFound => match subject {
            Subject::Directory => print_quoted(
                screen,
                "\n[Error] Folder '",
                name,
                "' does not exist",
            ),
            Subject::File => print_quoted(screen, "\n[Error] File \"", name, "\" does not exist!"),
        },
        ShellError::HasChildren => screen.print(
            "\n[Error] Cannot delete a directory with children",
        ),
        ShellError::CommandNotFound => print_quoted(
            screen,
            "\n[error] Command '",
            name,
            "' is not supported",
        ),
        ShellError::LineTooLong => screen.print("\n[error] The command is too long"),
    }
}

/// Shows a line end.
fn print_line_end(screen: &mut Screen)
    requires
        old(screen).wf(),
    ensures
        final(screen).wf(),
        final(screen)@ == old(screen)@.print(line_end()),
{
    screen.print_byte(KEY_NEWLINE);
    proof {
        lemma_print_one(old(screen)@, KEY_NEWLINE);
    }
}

/// The session of the shell.
pub struct Shell {
    buf: [u8; LINE_LENGTH],
    buf_len: usize,
    tree: Namespace,
    curr_dir: usize,
    mode: Mode,
}

impl View for Shell {
    type V = ShellView;

    closed spec fn view(&self) -> ShellView {
        ShellView {
            line: line_of(self.buf@, self.buf_len as int),
            tree: self.tree@,
            current_directory: self.curr_dir,
            mode: self.mode,
        }
    }
}

impl Shell {
    /// The session is well formed.
    pub closed spec fn wf(&self) -> bool {
        &&& self.buf_len <= LINE_LENGTH
        &&& self@.wf()
    }

    /// A well-formed session has a well-formed value.
    pub proof fn lemma_wf(&self)
        requires
            self.wf(),
        ensures
            self@.wf(),
    {
    }

    /// The session at the start.
    pub fn new() -> (shell: Shell)
        ensures
            shell.wf(),
            shell@ == ShellView::initial(),
    {
        let shell = Shell {
            buf: [END_OF_TEXT; LINE_LENGTH],
            buf_len: 0,
            tree: Namespace::new(),
            curr_dir: 0,
            mode: Mode::Normal,
        };
        proof {
            assert(shell@.line =~= Seq::<u8>::empty());
            lemma_initial_wf();
        }
        shell
    }

    /// The slot of the current directory.
    pub fn current_directory(&self) -> (dir: usize)
        ensures
            dir == self@.current_directory,
    {
        self.curr_dir
    }

    /// Where keystrokes go.
    pub fn mode(&self) -> (mode: Mode)
        ensures
            mode == self@.mode,
    {
        self.mode
    }

    /// The directories and files.
    pub fn tree(&self) -> (tree: &Namespace)
        ensures
            tree@ == self@.tree,
            self.wf() ==> tree.wf(),
    {
        &self.tree
    }

    /// The bytes typed since the last submit.
    pub fn line(&self) -> (line: Vec<u8>)
        requires
            self.wf(),
        ensures
            line@ == self@.line,
    {
        let mut line: Vec<u8> = Vec::new();
        let mut i: usize = 0;
        while i < self.buf_len
            invariant
                i <= self.buf_len <= LINE_LENGTH,
                line@ == self.buf@.take(i as int),
            decreases self.buf_len - i,
        {
            line.push(self.buf[i]);
            assert(line@ =~= self.buf@.take(i + 1));
            i += 1;
        }
        line
    }

    /// The slot of the child directory of the current one that the text
    /// held in `argv` finds, or `CLEAR_MARKER_DIRECTORY` where it finds
    /// none.
    pub fn get_folder_index_by_name(&self, argv: [u8; ARGUMENT_LENGTH]) -> (index: usize)
        requires
            self.wf(),
        ensures
            index == match self@.tree.find_child_by_name(
                self@.current_directory as int,
                text_of(argv@),
            ) {
                Some(child) => child,
                None => CLEAR_MARKER_DIRECTORY,
            },
            index == CLEAR_MARKER_DIRECTORY <==> self@.tree.find_child_by_name(
                self@.current_directory as int,
                text_of(argv@),
            ) is None,
            index != CLEAR_MARKER_DIRECTORY ==> self@.tree.dir_live(index as int),
    {
        match self.tree.find_child_by_name(self.curr_dir, argv.as_slice()) {
            Some(child) => child,
            None => CLEAR_MARKER_DIRECTORY,
        }
    }

    /// The slot of the file of the current directory that the text held in
    /// `argument` finds, or `CLEAR_MARKER_FILE` where it finds none.
    pub fn get_file_index(&self, argument: [u8; ARGUMENT_LENGTH]) -> (index: usize)
        requires
            self.wf(),
        ensures
            index == match self@.tree.find_file_by_name(
                self@.current_directory as int,
                text_of(argument@),
            ) {
                Some(file) => file,
                None => CLEAR_MARKER_FILE,
            },
            index == CLEAR_MARKER_FILE <==> self@.tree.find_file_by_name(
                self@.current_directory as int,
                text_of(argument@),
            ) is None,
            index != CLEAR_MARKER_FILE ==> self@.tree.file_live(index as int),
    {
        match self.tree.find_file_by_name(self.curr_dir, argument.as_slice()) {
            Some(file) => file,
            None => CLEAR_MARKER_FILE,
        }
    }

    /// `clear`: blanks the display.
    pub fn clear(&self, screen: &mut Screen)
        ensures
            final(screen).wf(),
            final(screen)@ == old(screen)@.cleared(),
    {
        screen.clear();
    }

    /// `cur_dir`: shows the path of the current directory on a new line.
    pub fn cur_dir(&self, screen: &mut Screen)
        requires
            self.wf(),
            old(screen).wf(),
        ensures
            final(screen).wf(),
            final(screen)@ == self@.cur_dir(old(screen)@).screen,
    {
        let path = self.tree.resolve_path_display(self.curr_dir);
        print_line_end(screen);
        screen.print_bytes(path.as_slice());
    }

    /// `dir_tree`: shows the tree below the current directory on a new
    /// line.
    pub fn dir_tree(&self, screen: &mut Screen)
        requires
            self.wf(),
            old(screen).wf(),
        ensures
            final(screen).wf(),
            final(screen)@ == self@.dir_tree(old(screen)@).screen,
    {
        let text = self.tree.print_tree(self.curr_dir);
        print_line_end(screen);
        screen.print_bytes(text.as_slice());
    }

    /// `make_dir`: creates a directory in the current one, named by the
    /// argument's text, and reports it.
    pub fn make_dir(
        &mut self,
        screen: &mut Screen,
        argument: [u8; ARGUMENT_LENGTH],
    ) -> (result: Result<(), ShellError>)
        requires
            old(self).wf(),
            old(screen).wf(),
        ensures
            final(self).wf(),
            final(screen).wf(),
            (Step { shell: final(self)@, screen: final(screen)@, result: result }) == old(
                self,
            )@.make_dir(old(screen)@, argument@),
    {
        match self.tree.create_child_directory(self.curr_dir, argument.as_slice()) {
            Ok(_) => {
                print_quoted(screen, "\n[ok] Created new dir '", argument.as_slice(), "'");
                proof {
                    law_create_keeps_others(
                        old(self)@.tree,
                        self.curr_dir as int,
                        text_of(argument@),
                    );
                }
                Ok(())
            },
            Err(error) => {
                report(screen, error, Subject::Directory, argument.as_slice());
                Err(error)
            },
        }
    }

    /// `change_dir`: makes the parent current where the argument's text
    /// is a single dot, and else the child directory that the text finds.
    pub fn change_dir(
        &mut self,
        screen: &mut Screen,
        argument: [u8; ARGUMENT_LENGTH],
    ) -> (result: Result<(), ShellError>)
        requires
            old(self).wf(),
            old(screen).wf(),
        ensures
            final(self).wf(),
            final(screen).wf(),
            (Step { shell: final(self)@, screen: final(screen)@, result: result }) == old(
                self,
            )@.change_dir(old(screen)@, argument@),
    {
        if name_length(argument.as_slice()) == 1 && argument[0] == PARENT_MARK {
            proof {
                lemma_text_of(argument@);
                assert(text_of(argument@) =~= parent_name());
            }
            self.curr_dir = self.tree.parent_of(self.curr_dir);
            screen.print("\n[ok] Directory has changed");
            return Ok(());
        }
        proof {
            lemma_text_of(argument@);
            if text_of(argument@) == parent_name() {
                assert(text_of(argument@)[0] == PARENT_MARK);
            }
        }
        let child = self.get_folder_index_by_name(argument);
        if child != CLEAR_MARKER_DIRECTORY {
            self.curr_dir = child;
            screen.print("\n[ok] Directory has changed");
            Ok(())
        } else {
            report(screen, ShellError::NotFound, Subject::Directory, argument.as_slice());
            Err(ShellError::NotFound)
        }
    }

    /// `remove_dir`: removes the child directory of the current one that
    /// the argument's text finds, and reports it.
    pub fn remove_dir(
        &mut self,
        screen: &mut Screen,
        dir_name: [u8; ARGUMENT_LENGTH],
    ) -> (result: Result<(), ShellError>)
        requires
            old(self).wf(),
            old(screen).wf(),
        ensures
            final(self).wf(),
            final(screen).wf(),
            (Step { shell: final(self)@, screen: final(screen)@, result: result }) == old(
                self,
            )@.remove_dir(old(screen)@, dir_name@),
    {
        match self.tree.remove_child_directory(self.curr_dir, dir_name.as_slice()) {
            Ok(Some(_)) => {
                print_quoted(screen, "\n[ok] Directory \"", dir_name.as_slice(), "\" deleted");
                proof {
                    law_remove_keeps_others(
                        old(self)@.tree,
                        self.curr_dir as int,
                        text_of(dir_name@),
                    );
                }
                Ok(())
            },
            Ok(None) => Ok(()),
            Err(error) => {
                report(screen, error, Subject::Directory, dir_name.as_slice());
                Err(error)
            },
        }
    }

    /// `make_file`: creates a file in the current directory, named by the
    /// argument's text, blanks the display and starts editing the file.
    pub fn make_file(
        &mut self,
        screen: &mut Screen,
        argument: [u8; ARGUMENT_LENGTH],
    ) -> (result: Result<(), ShellError>)
        requires
            old(self).wf(),
            old(screen).wf(),
        ensures
            final(self).wf(),
            final(screen).wf(),
            (Step { shell: final(self)@, screen: final(screen)@, result: result }) == old(
                self,
            )@.make_file(old(screen)@, argument@),
    {
        match self.tree.create_file(self.curr_dir, argument.as_slice()) {
            Ok(file) => {
                self.mode = Mode::EditingFile(file);
                screen.clear();
                proof {
                    law_created_file_is_live(
                        old(self)@.tree,
                        self.curr_dir as int,
                        text_of(argument@),
                    );
                }
                Ok(())
            },
            Err(error) => {
                report(screen, error, Subject::File, argument.as_slice());
                Err(error)
            },
        }
    }

    /// `remove_file`: blanks the display and removes the file of the
    /// current directory that the argument's text finds. Where that file
    /// is the one being edited, the editing ends with it.
    pub fn remove_file(
        &mut self,
        screen: &mut Screen,
        argument: [u8; ARGUMENT_LENGTH],
    ) -> (result: Result<(), ShellError>)
        requires
            old(self).wf(),
            old(screen).wf(),
        ensures
            final(self).wf(),
            final(screen).wf(),
            (Step { shell: final(self)@, screen: final(screen)@, result: result }) == old(
                self,
            )@.remove_file(old(screen)@, argument@),
    {
        screen.clear();
        proof {
            law_remove_file_keeps_others(
                self@.tree,
                self.curr_dir as int,
                text_of(argument@),
            );
        }
        match self.tree.remove_file(self.curr_dir, argument.as_slice()) {
            Ok(file) => {
                match self.mode {
                    Mode::EditingFile(edited) => {
                        if edited == file {
                            self.mode = Mode::Normal;
                        }
                    },
                    Mode::Normal => {},
                }
                Ok(())
            },
            Err(error) => {
                report(screen, error, Subject::File, argument.as_slice());
                Err(error)
            },
        }
    }

    /// `dump_file`: blanks the display and shows the counted lines of the
    /// file of the current directory that the argument's text finds.
    pub fn dump_file(
        &self,
        screen: &mut Screen,
        argument: [u8; ARGUMENT_LENGTH],
    ) -> (result: Result<(), ShellError>)
        requires
            self.wf(),
            old(screen).wf(),
        ensures
            final(screen).wf(),
            (Step { shell: self@, screen: final(screen)@, result: result }) == self@.dump_file(
                old(screen)@,
                argument@,
            ),
    {
        screen.clear();
        let file = self.get_file_index(argument);
        if file != CLEAR_MARKER_FILE {
            let text = self.tree.dump_file(file);
            screen.print_bytes(text.as_slice());
            Ok(())
        } else {
            report(screen, ShellError::NotFound, Subject::File, argument.as_slice());
            Err(ShellError::NotFound)
        }
    }

    /// `edit_file`: starts editing the file of the current directory that
    /// the argument's text finds, with no line counted and a blank
    /// display.
    pub fn edit_file(
        &mut self,
        screen: &mut Screen,
        argument: [u8; ARGUMENT_LENGTH],
    ) -> (result: Result<(), ShellError>)
        requires
            old(self).wf(),
            old(screen).wf(),
        ensures
            final(self).wf(),
            final(screen).wf(),
            (Step { shell: final(self)@, screen: final(screen)@, result: result }) == old(
                self,
            )@.edit_file(old(screen)@, argument@),
    {
        let file = self.get_file_index(argument);
        if file != CLEAR_MARKER_FILE {
            self.tree.reset_lines(file);
            self.mode = Mode::EditingFile(file);
            screen.clear();
            Ok(())
        } else {
            report(screen, ShellError::NotFound, Subject::File, argument.as_slice());
            Err(ShellError::NotFound)
        }
    }

    /// Runs the command that the token names on the argument. A token that
    /// names none is reported. `remove_file` is not among the names: it has
    /// more bytes than a token has cells, and is told by the line when the
    /// line is submitted.
    pub fn command_distributor(
        &mut self,
        screen: &mut Screen,
        argument: ([u8; COMMAND_LENGTH], [u8; ARGUMENT_LENGTH]),
    ) -> (result: Result<(), ShellError>)
        requires
            old(self).wf(),
            old(screen).wf(),
        ensures
            final(self).wf(),
            final(screen).wf(),
            (Step { shell: final(self)@, screen: final(screen)@, result: result }) == old(
                self,
            )@.command_distributor(old(screen)@, argument.0@, argument.1@),
    {
        if compare("cur_dir", argument.0) {
            self.cur_dir(screen);
            Ok(())
        } else if compare("make_dir", argument.0) {
            self.make_dir(screen, argument.1)
        } else if compare("change_dir", argument.0) {
            self.change_dir(screen, argument.1)
        } else if compare("dir_tree", argument.0) {
            self.dir_tree(screen);
            Ok(())
        } else if compare("remove_dir", argument.0) {
            self.remove_dir(screen, argument.1)
        } else if compare("clear", argument.0) {
            self.clear(screen);
            Ok(())
        } else if compare("make_file", argument.0) {
            self.make_file(screen, argument.1)
        } else if compare("dump_file", argument.0) {
            self.dump_file(screen, argument.1)
        } else if compare("edit_file", argument.0) {
            self.edit_file(screen, argument.1)
        } else {
            report(screen, ShellError::CommandNotFound, Subject::Directory, argument.0.as_slice());
            Err(ShellError::CommandNotFound)
        }
    }

    /// Whether the first `end` cells of the input line are the name of the
    /// command that removes a file.
    fn is_long_command(&self, end: usize) -> (same: bool)
        requires
            end <= self.buf_len <= LINE_LENGTH,
        ensures
            same == (self.buf@.take(end as int) == long_command()),
    {
        let name = "remove_file".as_bytes();
        if name.len() != end {
            return false;
        }
        let mut i: usize = 0;
        while i < end
            invariant
                i <= end <= LINE_LENGTH,
                end == name@.len(),
                name@ == long_command(),
                forall|k: int| 0 <= k < i ==> name@[k] == self.buf@[k],
            decreases end - i,
        {
            if name[i] != self.buf[i] {
                assert(self.buf@.take(end as int)[i as int] != name@[i as int]);
                return false;
            }
            i += 1;
        }
        assert(self.buf@.take(end as int) =~= name@);
        true
    }

    /// Submits the line.
    fn submit(&mut self, screen: &mut Screen) -> (result: Result<(), ShellError>)
        requires
            old(self).wf(),
            old(self)@.mode == Mode::Normal,
            old(screen).wf(),
        ensures
            final(self).wf(),
            final(screen).wf(),
            (Step { shell: final(self)@, screen: final(screen)@, result: result }) == old(
                self,
            )@.submit(old(screen)@),
    {
        let ghost line = self@.line;
        let mut end: usize = 0;
        while end < self.buf_len && self.buf[end] != KEY_SPACE
            invariant
                end <= self.buf_len <= LINE_LENGTH,
                line == self.buf@.take(self.buf_len as int),
                forall|k: int| 0 <= k < end ==> line[k] != KEY_SPACE,
            decreases self.buf_len - end,
        {
            end += 1;
        }
        proof {
            lemma_first_index_of_is(line, KEY_SPACE, 0, end as int);
            assert(line.take(end as int) =~= self.buf@.take(end as int));
        }
        let parts = split(self.buf, self.buf_len);
        let long_command = self.is_long_command(end);
        self.buf_len = 0;
        assert(self@.line =~= Seq::<u8>::empty());
        let result = if end <= COMMAND_LENGTH {
            self.command_distributor(screen, parts)
        } else if long_command {
            self.remove_file(screen, parts.1)
        } else {
            let nothing: [u8; 1] = [END_OF_TEXT];
            proof {
                lemma_first_index_of_is(nothing@, END_OF_TEXT, 0, 0);
                assert(text_of(nothing@) =~= Seq::<u8>::empty());
            }
            report(screen, ShellError::LineTooLong, Subject::Directory, nothing.as_slice());
            Err(ShellError::LineTooLong)
        };
        match self.mode {
            Mode::EditingFile(_) => {},
            Mode::Normal => {
                print_line_end(screen);
                print_start(screen);
            },
        }
        result
    }

    /// Ends the editing of file `file`.
    fn finish_edit(&mut self, screen: &mut Screen, file: usize)
        requires
            old(self).wf(),
            old(self)@.mode == Mode::EditingFile(file),
            old(screen).wf(),
        ensures
            final(self).wf(),
            final(screen).wf(),
            final(self)@.shown(final(screen)@) == old(self)@.finish_edit(old(screen)@, file),
    {
        let name = match self.tree.file(file) {
            Some(record) => record.name,
            None => [END_OF_TEXT; MAX_SIZE_DIRECTORY_NAME],
        };
        self.mode = Mode::Normal;
        self.tree.add_line(file);
        self.tree.store_body(file, screen.get_buffer());
        screen.clear();
        print_quoted(screen, "\n[ok] File \"", name.as_slice(), "\" saved succesfully!\n");
        print_start(screen);
    }

    /// Handles a key pressed.
    pub fn on_key_pressed(&mut self, screen: &mut Screen, key: u8) -> (result: Result<
        (),
        ShellError,
    >)
        requires
            old(self).wf(),
            old(screen).wf(),
        ensures
            final(self).wf(),
            final(screen).wf(),
            (Step { shell: final(self)@, screen: final(screen)@, result: result }) == old(
                self,
            )@.on_key_pressed(old(screen)@, key),
    {
        match self.mode {
            Mode::EditingFile(file) => {
                if key == KEY_NEWLINE {
                    self.tree.add_line(file);
                    screen.print_byte(KEY_NEWLINE);
                } else if key == KEY_BACKSPACE {
                    screen.delete_last_char(0);
                } else if key == KEY_TERMINATOR {
                    self.finish_edit(screen, file);
                } else {
                    screen.print_byte(key);
                }
                Ok(())
            },
            Mode::Normal => {
                if key == KEY_NEWLINE {
                    self.submit(screen)
                } else if key == KEY_BACKSPACE {
                    screen.delete_last_char(PROMPT_WIDTH);
                    if self.buf_len > 0 {
                        self.buf_len -= 1;
                        assert(self@.line =~= old(self)@.line.drop_last());
                    }
                    self.buf[self.buf_len] = END_OF_TEXT;
                    assert(self@.line =~= if old(self)@.line.len() > 0 {
                        old(self)@.line.drop_last()
                    } else {
                        old(self)@.line
                    });
                    Ok(())
                } else if key == KEY_TERMINATOR {
                    Ok(())
                } else if self.buf_len >= LINE_LENGTH {
                    Err(ShellError::LineTooLong)
                } else {
                    self.buf[self.buf_len] = key;
                    self.buf_len += 1;
                    screen.print_byte(key);
                    assert(self@.line =~= old(self)@.line.push(key));
                    Ok(())
                }
            },
        }
    }
}

/// Handles a key that the keyboard driver decoded: a key that carries a
/// character is pressed as the low byte of the character's code, and a raw
/// key changes nothing.
pub fn handle_keyboard_interrupt(shell: &mut Shell, screen: &mut Screen, key: Key) -> (result:
    Result<(), ShellError>)
    requires
        old(shell).wf(),
        old(screen).wf(),
    ensures
        final(shell).wf(),
        final(screen).wf(),
        (Step { shell: final(shell)@, screen: final(screen)@, result: result }) == key_step(
            old(shell)@,
            old(screen)@,
            key,
        ),
{
    match key {
        Key::Unicode(c) => {
            let code: u32 = c as u32;
            shell.on_key_pressed(screen, (code % 256) as u8)
        },
        Key::RawKey => Ok(()),
    }
}

} // verus!
