//! What can go wrong in the shell.

use vstd::prelude::*;

verus! {

/// The limit that was reached when something could not be created.
#[derive(Clone, Copy, Debug, PartialEq, Eq, Structural)]
pub enum Capacity {
    /// Every directory slot is in use.
    Directories,
    /// The parent directory has no entry left for a child directory.
    ChildrenPerDirectory,
    /// The directory has no entry left for a file.
    FilesPerDirectory,
    /// Every file slot is in use.
    Files,
}

/// Why a command or a keystroke was refused. A refused operation changes
/// nothing but the display.
#[derive(Clone, Copy, Debug, PartialEq, Eq, Structural)]
pub enum ShellError {
    /// No name was given.
    EmptyName,
    /// The name has more bytes than a name has cells.
    NameTooLong,
    /// The directory already holds an entry that the name finds.
    DuplicateName,
    /// A limit was reached.
    CapacityExceeded(Capacity),
    /// No such directory or file.
    NotFound,
    /// The directory still holds directories or files.
    HasChildren,
    /// The command token names no command.
    CommandNotFound,
    /// The input line is full, or the command token has more bytes than a
    /// command has cells.
    LineTooLong,
}

} // verus!
