//! The shell as a value: what each keystroke and each command does to the
//! session and to the display.

use crate::error::{Capacity, ShellError};
use crate::keyboard::Key;
use crate::names::{cells_of, first_index_of, name_is, text_of};
use crate::tree_spec::{line_end, NamespaceView, MAX_SIZE_OF_DIRECTORIES};
use crate::vga_buf::ScreenView;
use vstd::prelude::*;
use vstd::string::StringSliceAdditionalSpecFns;

verus! {

/// Number of cells of the input line.
pub const LINE_LENGTH: usize = 80;

/// Number of cells of a command token.
pub const COMMAND_LENGTH: usize = 10;

/// Number of cells of an argument.
pub const ARGUMENT_LENGTH: usize = 50;

/// Number of columns that the prompt takes.
pub const PROMPT_WIDTH: u32 = 3;

/// The key that submits the line, or ends a line of a file.
pub const KEY_NEWLINE: u8 = 0x0a;

/// The key that strikes out the last character.
pub const KEY_BACKSPACE: u8 = 0x08;

/// The key that separates the command from its argument.
pub const KEY_SPACE: u8 = 0x20;

/// The key that ends the editing of a file, a backtick.
pub const KEY_TERMINATOR: u8 = 0x60;

/// The byte that sends `change_dir` to the parent directory, a dot.
pub const PARENT_MARK: u8 = 0x2e;

/// Where keystrokes go.
#[derive(Clone, Copy, Debug, PartialEq, Eq, Structural)]
pub enum Mode {
    /// Into the input line.
    Normal,
    /// Onto the display, to become the body of the file in this slot.
    EditingFile(usize),
}

/// What an error message speaks of.
#[derive(Clone, Copy, Debug, PartialEq, Eq, Structural)]
pub enum Subject {
    Directory,
    File,
}

/// The session as a value.
pub struct ShellView {
    /// The bytes typed since the last submit.
    pub line: Seq<u8>,
    /// The directories and files.
    pub tree: NamespaceView,
    /// The slot of the directory that commands work in.
    pub current_directory: usize,
    /// Where keystrokes go.
    pub mode: Mode,
}

/// The session and the display after a keystroke or a command, and whether
/// it was refused.
pub struct Step {
    pub shell: ShellView,
    pub screen: ScreenView,
    pub result: Result<(), ShellError>,
}

/// The prompt.
pub open spec fn prompt() -> Seq<u8> {
    " $ ".spec_bytes()
}

/// A text between two others: `before`, `name`, `after`.
pub open spec fn quoted(before: Seq<u8>, name: Seq<u8>, after: Seq<u8>) -> Seq<u8> {
    before + name + after
}

/// The line that reports `error`.
pub open spec fn error_message(error: ShellError, subject: Subject, name: Seq<u8>) -> Seq<u8> {
    match error {
        ShellError::EmptyName => match subject {
            Subject::Directory => "\n[Error] Specify a name of folder".spec_bytes(),
            Subject::File => "\n[Error] Specify a name of file".spec_bytes(),
        },
        ShellError::NameTooLong => {
            "\n[Error] The maximum number of characters has been exceeded".spec_bytes()
        },
        ShellError::DuplicateName => match subject {
            Subject::Directory => quoted(
                "\n[Error] Directory \"".spec_bytes(),
                name,
                "\" already exist".spec_bytes(),
            ),
            Subject::File => quoted(
                "\n[Error] File \"".spec_bytes(),
                name,
                "\" already exist".spec_bytes(),
            ),
        },
        ShellError::CapacityExceeded(capacity) => match capacity {
            Capacity::Directories => "\n[Error] The maximum number of directories".spec_bytes(),
            Capacity::ChildrenPerDirectory => {
                "\n[Error] The maximum number of children directories".spec_bytes()
            },
            Capacity::FilesPerDirectory => {
                "\n[Error] The maximum number of files in directory".spec_bytes()
            },
            Capacity::Files => "\n[Error] The maximum number of files".spec_bytes(),
        },
        ShellError::NotFound => match subject {
            Subject::Directory => quoted(
                "\n[Error] Folder '".spec_bytes(),
                name,
                "' does not exist".spec_bytes(),
            ),
            Subject::File => quoted(
                "\n[Error] File \"".spec_bytes(),
                name,
                "\" does not exist!".spec_bytes(),
            ),
        },
        ShellError::HasChildren => "\n[Error] Cannot delete a directory with children".spec_bytes(),
        ShellError::CommandNotFound => quoted(
            "\n[error] Command '".spec_bytes(),
            name,
            "' is not supported".spec_bytes(),
        ),
        ShellError::LineTooLong => "\n[error] The command is too long".spec_bytes(),
    }
}

/// The line that reports a new directory.
pub open spec fn created_message(name: Seq<u8>) -> Seq<u8> {
    quoted("\n[ok] Created new dir '".spec_bytes(), name, "'".spec_bytes())
}

/// The line that reports a change of directory.
pub open spec fn changed_message() -> Seq<u8> {
    "\n[ok] Directory has changed".spec_bytes()
}

/// The line that reports the removal of a directory.
pub open spec fn deleted_message(name: Seq<u8>) -> Seq<u8> {
    quoted("\n[ok] Directory \"".spec_bytes(), name, "\" deleted".spec_bytes())
}

/// The lines that report a file as saved.
pub open spec fn saved_message(name: Seq<u8>) -> Seq<u8> {
    quoted("\n[ok] File \"".spec_bytes(), name, "\" saved succesfully!\n".spec_bytes())
}

/// The bytes typed so far: the first `buf_len` cells of the input line, or
/// all of them where `buf_len` is more.
pub open spec fn line_of(cells: Seq<u8>, buf_len: int) -> Seq<u8> {
    if buf_len < 0 {
        Seq::empty()
    } else if buf_len > cells.len() {
        cells
    } else {
        cells.take(buf_len)
    }
}

/// The number of bytes of the line before its first space.
pub open spec fn command_end(line: Seq<u8>) -> int {
    first_index_of(line, KEY_SPACE, 0)
}

/// The command token of a line: the bytes before its first space, cut to
/// the cells of a command and filled up with NUL.
pub open spec fn split_command(line: Seq<u8>) -> Seq<u8> {
    cells_of(line.take(command_end(line)), COMMAND_LENGTH as int)
}

/// The argument of a line: the bytes after its first space, cut to the
/// cells of an argument and filled up with NUL. All NUL where the line has
/// no space.
pub open spec fn split_argument(line: Seq<u8>) -> Seq<u8> {
    if command_end(line) < line.len() {
        cells_of(line.skip(command_end(line) + 1), ARGUMENT_LENGTH as int)
    } else {
        cells_of(Seq::empty(), ARGUMENT_LENGTH as int)
    }
}

/// The text that sends `change_dir` to the parent directory: a single dot.
pub open spec fn parent_name() -> Seq<u8> {
    seq![PARENT_MARK]
}

/// The name of the command that removes a file, which has one byte more
/// than a command token has cells.
pub open spec fn long_command() -> Seq<u8> {
    "remove_file".spec_bytes()
}

/// Whether the token in `cells` is the command `name`: the name fits in
/// the cells, the cells hold it byte for byte, and every cell after it is
/// NUL.
pub open spec fn is_command(cells: Seq<u8>, name: Seq<u8>) -> bool {
    name_is(name, cells)
}

/// What the session does with a decoded key: a character is pressed as the
/// low byte of its code, and a raw key changes nothing.
pub open spec fn key_step(shell: ShellView, screen: ScreenView, key: Key) -> Step {
    match key {
        Key::Unicode(c) => shell.on_key_pressed(screen, key_of(c)),
        Key::RawKey => shell.shown(screen),
    }
}

/// The key that a character stands for: its code, cut to one byte.
pub open spec fn key_of(c: char) -> u8 {
    ((c as u32) % 256) as u8
}

impl ShellView {
    /// The session at the start: an empty line, the root directory alone
    /// and current, keystrokes going into the line.
    pub open spec fn initial() -> ShellView {
        ShellView {
            line: Seq::empty(),
            tree: NamespaceView::initial(),
            current_directory: 0,
            mode: Mode::Normal,
        }
    }

    /// The line fits its cells, the namespace is well formed, the current
    /// directory is in use, and so is a file that is being edited.
    pub open spec fn wf(self) -> bool {
        &&& self.line.len() <= LINE_LENGTH
        &&& self.tree.wf()
        &&& self.tree.dir_live(self.current_directory as int)
        &&& match self.mode {
            Mode::Normal => true,
            Mode::EditingFile(file) => self.tree.file_live(file as int),
        }
    }

    /// A step that changes the display alone and succeeds.
    pub open spec fn shown(self, screen: ScreenView) -> Step {
        Step { shell: self, screen: screen, result: Ok(()) }
    }

    /// A step that reports `error` and changes nothing else.
    pub open spec fn refused(
        self,
        screen: ScreenView,
        error: ShellError,
        subject: Subject,
        name: Seq<u8>,
    ) -> Step {
        Step {
            shell: self,
            screen: screen.print(error_message(error, subject, name)),
            result: Err(error),
        }
    }

    /// `cur_dir`: shows the path of the current directory on a new line.
    pub open spec fn cur_dir(self, screen: ScreenView) -> Step {
        self.shown(
            screen.print(line_end()).print(
                self.tree.path_text(
                    self.current_directory as int,
                    MAX_SIZE_OF_DIRECTORIES as nat,
                ),
            ),
        )
    }

    /// `make_dir`: creates a directory in the current one, named by the
    /// argument's text, and reports it.
    pub open spec fn make_dir(self, screen: ScreenView, argument: Seq<u8>) -> Step {
        let name = text_of(argument);
        let dir = self.current_directory as int;
        match self.tree.create_child_directory_result(dir, name) {
            Ok(_) => Step {
                shell: ShellView { tree: self.tree.create_child_directory(dir, name), ..self },
                screen: screen.print(created_message(name)),
                result: Ok(()),
            },
            Err(error) => self.refused(screen, error, Subject::Directory, name),
        }
    }

    /// `change_dir`: makes the parent current where the argument's text
    /// is a single dot, and else the child directory that the text finds.
    pub open spec fn change_dir(self, screen: ScreenView, argument: Seq<u8>) -> Step {
        let name = text_of(argument);
        let dir = self.current_directory as int;
        if name == parent_name() {
            Step {
                shell: ShellView { current_directory: self.tree.dirs[dir].parent_index, ..self },
                screen: screen.print(changed_message()),
                result: Ok(()),
            }
        } else {
            match self.tree.find_child_by_name(dir, name) {
                Some(child) => Step {
                    shell: ShellView { current_directory: child, ..self },
                    screen: screen.print(changed_message()),
                    result: Ok(()),
                },
                None => self.refused(screen, ShellError::NotFound, Subject::Directory, name),
            }
        }
    }

    /// `remove_dir`: removes the child directory of the current one that
    /// the argument's text finds, and reports it. Where the text finds
    /// none, nothing happens and nothing is shown.
    pub open spec fn remove_dir(self, screen: ScreenView, argument: Seq<u8>) -> Step {
        let name = text_of(argument);
        let dir = self.current_directory as int;
        match self.tree.remove_child_directory_result(dir, name) {
            Ok(Some(_)) => Step {
                shell: ShellView { tree: self.tree.remove_child_directory(dir, name), ..self },
                screen: screen.print(deleted_message(name)),
                result: Ok(()),
            },
            Ok(None) => self.shown(screen),
            Err(error) => self.refused(screen, error, Subject::Directory, name),
        }
    }

    /// `dir_tree`: shows the tree below the current directory on a new
    /// line.
    pub open spec fn dir_tree(self, screen: ScreenView) -> Step {
        self.shown(
            screen.print(line_end()).print(self.tree.tree_text(self.current_directory as int)),
        )
    }

    /// `clear`: blanks the display.
    pub open spec fn clear(self, screen: ScreenView) -> Step {
        self.shown(screen.cleared())
    }

    /// `make_file`: creates a file in the current directory, named by the
    /// argument's text, blanks the display and starts editing the file.
    pub open spec fn make_file(self, screen: ScreenView, argument: Seq<u8>) -> Step {
        let name = text_of(argument);
        let dir = self.current_directory as int;
        match self.tree.create_file_result(dir, name) {
            Ok(file) => Step {
                shell: ShellView {
                    tree: self.tree.create_file(dir, name),
                    mode: Mode::EditingFile(file),
                    ..self
                },
                screen: screen.cleared(),
                result: Ok(()),
            },
            Err(error) => self.refused(screen, error, Subject::File, name),
        }
    }

    /// `remove_file`: blanks the display and removes the file of the
    /// current directory that the argument's text finds. Where that file
    /// is the one being edited, the editing ends with it and keystrokes go
    /// into the input line again.
    pub open spec fn remove_file(self, screen: ScreenView, argument: Seq<u8>) -> Step {
        let name = text_of(argument);
        let dir = self.current_directory as int;
        match self.tree.remove_file_result(dir, name) {
            Ok(file) => Step {
                shell: ShellView {
                    tree: self.tree.remove_file(dir, name),
                    mode: if self.mode == Mode::EditingFile(file) {
                        Mode::Normal
                    } else {
                        self.mode
                    },
                    ..self
                },
                screen: screen.cleared(),
                result: Ok(()),
            },
            Err(error) => self.refused(screen.cleared(), error, Subject::File, name),
        }
    }

    /// `dump_file`: blanks the display and shows the counted lines of the
    /// file of the current directory that the argument's text finds.
    pub open spec fn dump_file(self, screen: ScreenView, argument: Seq<u8>) -> Step {
        let name = text_of(argument);
        let dir = self.current_directory as int;
        match self.tree.find_file_by_name(dir, name) {
            Some(file) => self.shown(screen.cleared().print(self.tree.dump_text(file as int))),
            None => self.refused(screen.cleared(), ShellError::NotFound, Subject::File, name),
        }
    }

    /// `edit_file`: starts editing the file of the current directory that
    /// the argument's text finds, with no line counted and a blank
    /// display.
    pub open spec fn edit_file(self, screen: ScreenView, argument: Seq<u8>) -> Step {
        let name = text_of(argument);
        let dir = self.current_directory as int;
        match self.tree.find_file_by_name(dir, name) {
            Some(file) => Step {
                shell: ShellView {
                    tree: self.tree.reset_lines(file as int),
                    mode: Mode::EditingFile(file),
                    ..self
                },
                screen: screen.cleared(),
                result: Ok(()),
            },
            None => self.refused(screen, ShellError::NotFound, Subject::File, name),
        }
    }

    /// Runs the command that the token names on the argument. A token that
    /// names none is reported. `remove_file` is not among the names: it has
    /// more bytes than a token has cells, and `submit` tells it by the line.
    pub open spec fn command_distributor(
        self,
        screen: ScreenView,
        command: Seq<u8>,
        argument: Seq<u8>,
    ) -> Step {
        if is_command(command, "cur_dir".spec_bytes()) {
            self.cur_dir(screen)
        } else if is_command(command, "make_dir".spec_bytes()) {
            self.make_dir(screen, argument)
        } else if is_command(command, "change_dir".spec_bytes()) {
            self.change_dir(screen, argument)
        } else if is_command(command, "dir_tree".spec_bytes()) {
            self.dir_tree(screen)
        } else if is_command(command, "remove_dir".spec_bytes()) {
            self.remove_dir(screen, argument)
        } else if is_command(command, "clear".spec_bytes()) {
            self.clear(screen)
        } else if is_command(command, "make_file".spec_bytes()) {
            self.make_file(screen, argument)
        } else if is_command(command, "dump_file".spec_bytes()) {
            self.dump_file(screen, argument)
        } else if is_command(command, "edit_file".spec_bytes()) {
            self.edit_file(screen, argument)
        } else {
            self.refused(
                screen,
                ShellError::CommandNotFound,
                Subject::Directory,
                text_of(command),
            )
        }
    }

    /// The line is submitted: it is split, the command runs, and the line
    /// is empty again. A new prompt follows unless a file is now being
    /// edited.
    ///
    /// A line whose command token has more bytes than a command has cells
    /// is refused, with one exception: `remove_file`, the one command whose
    /// name is longer than the cells, runs where the token is that name.
    pub open spec fn submit(self, screen: ScreenView) -> Step {
        let emptied = ShellView { line: Seq::empty(), ..self };
        let token = self.line.take(command_end(self.line));
        let step = if token.len() <= COMMAND_LENGTH {
            emptied.command_distributor(
                screen,
                split_command(self.line),
                split_argument(self.line),
            )
        } else if token == long_command() {
            emptied.remove_file(screen, split_argument(self.line))
        } else {
            emptied.refused(screen, ShellError::LineTooLong, Subject::Directory, Seq::empty())
        };
        match step.shell.mode {
            Mode::EditingFile(_) => step,
            Mode::Normal => Step {
                screen: step.screen.print(line_end()).print(prompt()),
                ..step
            },
        }
    }

    /// The editing of file `file` ends: one more line counts, the
    /// characters on the display become the file's body, the display is
    /// blanked, the file is reported as saved and a new prompt follows.
    pub open spec fn finish_edit(self, screen: ScreenView, file: usize) -> Step {
        Step {
            shell: ShellView {
                tree: self.tree.add_line(file as int).store_body(file as int, screen.chars()),
                mode: Mode::Normal,
                ..self
            },
            screen: screen.cleared().print(
                saved_message(text_of(self.tree.files[file as int].name)),
            ).print(prompt()),
            result: Ok(()),
        }
    }

    /// A key pressed while a file is edited: a newline counts a line and
    /// moves the cursor, a backspace strikes out a character, the
    /// terminator ends the editing, and every other key goes to the
    /// display. The input line stays as it is.
    pub open spec fn on_key_editing(self, screen: ScreenView, file: usize, key: u8) -> Step {
        if key == KEY_NEWLINE {
            Step {
                shell: ShellView { tree: self.tree.add_line(file as int), ..self },
                screen: screen.print_byte(KEY_NEWLINE),
                result: Ok(()),
            }
        } else if key == KEY_BACKSPACE {
            self.shown(screen.deleted_last_char(0))
        } else if key == KEY_TERMINATOR {
            self.finish_edit(screen, file)
        } else {
            self.shown(screen.print_byte(key))
        }
    }

    /// A key pressed at the prompt: a newline submits the line, a backspace
    /// takes the last byte from the line and strikes it out on the display
    /// without touching the prompt, the terminator does nothing, and every
    /// other key is added to the line and shown. A key that the full line
    /// has no cell for is refused and not shown.
    pub open spec fn on_key_normal(self, screen: ScreenView, key: u8) -> Step {
        if key == KEY_NEWLINE {
            self.submit(screen)
        } else if key == KEY_BACKSPACE {
            Step {
                shell: ShellView {
                    line: if self.line.len() > 0 {
                        self.line.drop_last()
                    } else {
                        self.line
                    },
                    ..self
                },
                screen: screen.deleted_last_char(PROMPT_WIDTH as int),
                result: Ok(()),
            }
        } else if key == KEY_TERMINATOR {
            self.shown(screen)
        } else if self.line.len() >= LINE_LENGTH {
            Step { shell: self, screen: screen, result: Err(ShellError::LineTooLong) }
        } else {
            Step {
                shell: ShellView { line: self.line.push(key), ..self },
                screen: screen.print_byte(key),
                result: Ok(()),
            }
        }
    }

    /// A key pressed.
    pub open spec fn on_key_pressed(self, screen: ScreenView, key: u8) -> Step {
        match self.mode {
            Mode::EditingFile(file) => self.on_key_editing(screen, file, key),
            Mode::Normal => self.on_key_normal(screen, key),
        }
    }
}

} // verus!
