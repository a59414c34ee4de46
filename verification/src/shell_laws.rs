//! What holds across the keystrokes and commands of the shell.

use crate::error::ShellError;
use crate::names::{lemma_first_index_of, name_is, text_of};
use crate::shell_spec::{
    error_message, parent_name, split_argument, Mode, ShellView, Step, Subject, KEY_BACKSPACE,
    KEY_NEWLINE, KEY_TERMINATOR,
};
use crate::tree_laws::{
    holds_one_directory_with_one_file, law_create_keeps_others, law_created_file_is_live,
    law_listing_of_one_directory_with_one_file, law_remove_file_keeps_others,
    law_remove_keeps_others, law_remove_refuses_full_directory,
    listing_of_one_directory_with_one_file,
};
use crate::tree_proof::{
    lemma_add_line_wf, lemma_create_child_directory_wf, lemma_create_file_wf,
    lemma_remove_child_directory_wf, lemma_remove_file_wf, lemma_reset_lines_wf,
    lemma_store_body_wf,
};
use crate::tree_spec::{
    line_end, NamespaceView, CLEAR_MARKER_FILE, LINE_WIDTH, MAX_LINES,
    MAX_SIZE_FILES_IN_DIRECTORY, MAX_SIZE_OF_CHILDREN_DIRECTORIES,
};
use crate::vga_buf::{
    blank, lemma_print_one, lemma_print_wf, Alignment, ScreenView, BLANK_BYTE, BUF_SIZE,
    NEWLINE_BYTE,
};
use vstd::prelude::*;

verus! {

/// The session and the display after `keys` are pressed one after the
/// other.
pub open spec fn type_keys(shell: ShellView, screen: ScreenView, keys: Seq<u8>) -> Step
    decreases keys.len(),
{
    if keys.len() == 0 {
        shell.shown(screen)
    } else {
        let before = type_keys(shell, screen, keys.drop_last());
        before.shell.on_key_pressed(before.screen, keys.last())
    }
}

/// The number of times that `key` occurs in `keys`.
pub open spec fn count_of(keys: Seq<u8>, key: u8) -> nat
    decreases keys.len(),
{
    if keys.len() == 0 {
        0
    } else {
        count_of(keys.drop_last(), key) + if keys.last() == key {
            1nat
        } else {
            0nat
        }
    }
}

/// `change_dir` with a single dot, given in the root directory, leaves the
/// root directory current and the session as it was.
pub proof fn law_change_dir_up_from_root(shell: ShellView, screen: ScreenView, argument: Seq<u8>)
    requires
        shell.wf(),
        shell.current_directory == 0,
        text_of(argument) == parent_name(),
    ensures
        shell.change_dir(screen, argument).shell == shell,
        shell.change_dir(screen, argument).result is Ok,
{
}

/// A command that is refused leaves the session as it was: no part of it
/// is carried out.
pub proof fn law_refused_command_changes_nothing(
    shell: ShellView,
    screen: ScreenView,
    command: Seq<u8>,
    argument: Seq<u8>,
)
    ensures
        shell.command_distributor(screen, command, argument).result is Err
            ==> shell.command_distributor(screen, command, argument).shell == shell,
{
}

/// The mode decides where a key goes. While a file is edited, no key
/// changes the input line. At the prompt, no key but the one that submits
/// the line changes a directory or a file.
pub proof fn law_keys_routed_by_mode(shell: ShellView, screen: ScreenView, key: u8)
    ensures
        shell.mode is EditingFile ==> shell.on_key_pressed(screen, key).shell.line == shell.line,
        shell.mode is Normal && key != KEY_NEWLINE ==> shell.on_key_pressed(screen, key).shell.tree
            == shell.tree,
{
}

proof fn lemma_printing_keeps_well_formed()
    ensures
        forall|s: ScreenView, bytes: Seq<u8>| s.wf() ==> #[trigger] s.print(bytes).wf(),
        forall|s: ScreenView, byte: u8| s.wf() ==> #[trigger] s.print_byte(byte).wf(),
{
    assert forall|s: ScreenView, bytes: Seq<u8>| s.wf() implies #[trigger] s.print(bytes).wf() by {
        lemma_print_wf(s, bytes);
    }
    assert forall|s: ScreenView, byte: u8| s.wf() implies #[trigger] s.print_byte(byte).wf() by {
        lemma_print_wf(s, seq![byte]);
        lemma_print_one(s, byte);
    }
}

/// Every command that works on directories leaves a well-formed session
/// and a well-formed display well formed.
pub proof fn law_directory_commands_keep_well_formed(
    shell: ShellView,
    screen: ScreenView,
    argument: Seq<u8>,
)
    requires
        shell.wf(),
        screen.wf(),
    ensures
        shell.cur_dir(screen).shell.wf() && shell.cur_dir(screen).screen.wf(),
        shell.dir_tree(screen).shell.wf() && shell.dir_tree(screen).screen.wf(),
        shell.clear(screen).shell.wf() && shell.clear(screen).screen.wf(),
        shell.make_dir(screen, argument).shell.wf() && shell.make_dir(screen, argument).screen.wf(),
        shell.change_dir(screen, argument).shell.wf() && shell.change_dir(
            screen,
            argument,
        ).screen.wf(),
        shell.remove_dir(screen, argument).shell.wf() && shell.remove_dir(
            screen,
            argument,
        ).screen.wf(),
{
    let dir = shell.current_directory as int;
    let tree = shell.tree;
    let name = text_of(argument);
    lemma_printing_keeps_well_formed();
    lemma_create_child_directory_wf(tree, dir, name);
    law_create_keeps_others(tree, dir, name);
    lemma_remove_child_directory_wf(tree, dir, name);
    law_remove_keeps_others(tree, dir, name);
    lemma_found_is_live(tree, dir, name);
    assert(tree.dir_wf(dir));
}

/// Every command that works on files leaves a well-formed session and a
/// well-formed display well formed.
pub proof fn law_file_commands_keep_well_formed(
    shell: ShellView,
    screen: ScreenView,
    argument: Seq<u8>,
)
    requires
        shell.wf(),
        screen.wf(),
    ensures
        shell.make_file(screen, argument).shell.wf() && shell.make_file(
            screen,
            argument,
        ).screen.wf(),
        shell.dump_file(screen, argument).shell.wf() && shell.dump_file(
            screen,
            argument,
        ).screen.wf(),
        shell.edit_file(screen, argument).shell.wf() && shell.edit_file(
            screen,
            argument,
        ).screen.wf(),
        shell.remove_file(screen, argument).shell.wf() && shell.remove_file(
            screen,
            argument,
        ).screen.wf(),
{
    let dir = shell.current_directory as int;
    let tree = shell.tree;
    let name = text_of(argument);
    lemma_printing_keeps_well_formed();
    lemma_create_file_wf(tree, dir, name);
    law_created_file_is_live(tree, dir, name);
    lemma_remove_file_wf(tree, dir, name);
    law_remove_file_keeps_others(tree, dir, name);
    lemma_found_is_live(tree, dir, name);
    match tree.find_file_by_name(dir, name) {
        Some(file) => {
            lemma_reset_lines_wf(tree, file as int);
        },
        None => {},
    }
}

/// Every key leaves a well-formed session and a well-formed display well
/// formed.
pub proof fn law_key_keeps_well_formed(shell: ShellView, screen: ScreenView, key: u8)
    requires
        shell.wf(),
        screen.wf(),
    ensures
        shell.on_key_pressed(screen, key).shell.wf(),
        shell.on_key_pressed(screen, key).screen.wf(),
{
    lemma_printing_keeps_well_formed();
    match shell.mode {
        Mode::EditingFile(file) => {
            lemma_add_line_wf(shell.tree, file as int);
            lemma_store_body_wf(shell.tree.add_line(file as int), file as int, screen.chars());
        },
        Mode::Normal => {
            if key == KEY_NEWLINE {
                let emptied = ShellView { line: Seq::empty(), ..shell };
                let argument = split_argument(shell.line);
                law_directory_commands_keep_well_formed(emptied, screen, argument);
                law_file_commands_keep_well_formed(emptied, screen, argument);
            }
        },
    }
}

/// What a query finds in a directory is in use.
pub proof fn lemma_found_is_live(ns: NamespaceView, dir: int, name: Seq<u8>)
    requires
        ns.wf(),
    ensures
        ns.find_child_by_name(dir, name) is Some ==> ns.dir_live(
            ns.find_child_by_name(dir, name)->0 as int,
        ),
        ns.find_file_by_name(dir, name) is Some ==> ns.file_live(
            ns.find_file_by_name(dir, name)->0 as int,
        ),
{
    if ns.dir_live(dir) {
        assert(ns.dir_wf(dir));
        lemma_first_index_of(ns.child_hits(dir, name), true, 0);
        lemma_first_index_of(ns.file_hits(dir, name), true, 0);
        let child = ns.child_position(dir, name);
        if child < MAX_SIZE_OF_CHILDREN_DIRECTORIES {
            assert(ns.child_hits(dir, name)[child]);
            assert(ns.child_entry_wf(dir, child));
        }
        let file = ns.file_position(dir, name);
        if file < MAX_SIZE_FILES_IN_DIRECTORY {
            assert(ns.file_hits(dir, name)[file]);
            assert(ns.file_entry_wf(dir, file));
        }
    }
}

/// While file `file` is edited and the terminator is not pressed, the file
/// stays the one edited, every newline counts one line for it, up to the
/// most a body holds, and the input line stays as it was.
pub proof fn lemma_editing_counts_lines(
    shell: ShellView,
    screen: ScreenView,
    file: usize,
    keys: Seq<u8>,
)
    requires
        shell.mode == Mode::EditingFile(file),
        shell.tree.file_live(file as int),
        !keys.contains(KEY_TERMINATOR),
        shell.tree.files[file as int].count_lines + count_of(keys, KEY_NEWLINE) <= MAX_LINES,
    ensures
        ({
            let typed = type_keys(shell, screen, keys);
            &&& typed.shell.mode == Mode::EditingFile(file)
            &&& typed.shell.tree.file_live(file as int)
            &&& typed.shell.tree.files[file as int].count_lines
                == shell.tree.files[file as int].count_lines + count_of(keys, KEY_NEWLINE)
            &&& typed.shell.line == shell.line
            &&& typed.shell.current_directory == shell.current_directory
            &&& typed.shell.tree.dirs == shell.tree.dirs
        }),
    decreases keys.len(),
{
    if keys.len() > 0 {
        let front = keys.drop_last();
        assert forall|i: int| 0 <= i < front.len() implies front[i] != KEY_TERMINATOR by {
            assert(keys[i] == front[i]);
        }
        assert(keys.last() != KEY_TERMINATOR) by {
            assert(keys[keys.len() - 1] == keys.last());
        }
        lemma_editing_counts_lines(shell, screen, file, front);
    }
}

/// A file that is written and saved is dumped as it was seen. After a
/// file is opened for editing, keys are pressed that hold one newline less
/// than the number of lines, and the terminator ends the editing, the file
/// counts that number of lines, and its dump is the display of the moment
/// the terminator was pressed, character for character, for that many
/// lines.
pub proof fn law_edit_round_trip(shell: ShellView, screen: ScreenView, file: usize, keys: Seq<u8>)
    requires
        shell.mode == Mode::EditingFile(file),
        shell.tree.file_live(file as int),
        shell.tree.files[file as int].count_lines == 0,
        !keys.contains(KEY_TERMINATOR),
        count_of(keys, KEY_NEWLINE) + 1 <= MAX_LINES,
    ensures
        ({
            let lines = count_of(keys, KEY_NEWLINE) + 1;
            let typed = type_keys(shell, screen, keys);
            let saved = typed.shell.on_key_pressed(typed.screen, KEY_TERMINATOR);
            &&& saved.shell.mode == Mode::Normal
            &&& saved.shell.tree.file_live(file as int)
            &&& saved.shell.tree.files[file as int].count_lines == lines
            &&& saved.shell.tree.files[file as int].context == typed.screen.chars()
            &&& saved.shell.tree.dump_text(file as int) == typed.screen.chars().take(
                lines * LINE_WIDTH,
            )
        }),
{
    lemma_editing_counts_lines(shell, screen, file, keys);
}

/// `dump_file` shows what the file holds: the display is blanked and the
/// counted lines of the file that the argument finds are printed.
pub proof fn law_dump_prints_body(shell: ShellView, screen: ScreenView, argument: Seq<u8>)
    requires
        shell.tree.find_file_by_name(
            shell.current_directory as int,
            text_of(argument),
        ) is Some,
    ensures
        ({
            let file = shell.tree.find_file_by_name(
                shell.current_directory as int,
                text_of(argument),
            )->0;
            let step = shell.dump_file(screen, argument);
            &&& step.shell == shell
            &&& step.result is Ok
            &&& step.screen == screen.cleared().print(shell.tree.dump_text(file as int))
        }),
{
}

/// Text printed on a blank, left-aligned display stands in its first
/// cells: where the text holds no newline and is no longer than the
/// display, the characters of the first cells are the text, the cells
/// after them are blank, and the cursor's column is the length of the text.
pub proof fn law_printed_text_is_shown(screen: ScreenView, bytes: Seq<u8>)
    requires
        screen.wf(),
        screen.align == Alignment::Left,
        bytes.len() <= BUF_SIZE,
        !bytes.contains(NEWLINE_BYTE),
    ensures
        ({
            let shown = screen.cleared().print(bytes);
            &&& shown.cells.len() == BUF_SIZE
            &&& shown.align == Alignment::Left
            &&& shown.color == screen.color
            &&& shown.rows == 0
            &&& shown.columns == bytes.len()
            &&& shown.chars().take(bytes.len() as int) == bytes
            &&& forall|k: int| bytes.len() <= k < BUF_SIZE ==> shown.cells[k] == blank()
        }),
    decreases bytes.len(),
{
    let shown = screen.cleared().print(bytes);
    if bytes.len() == 0 {
        assert(shown.chars().take(0) =~= bytes);
    } else {
        let front = bytes.drop_last();
        assert forall|i: int| 0 <= i < front.len() implies front[i] != NEWLINE_BYTE by {
            assert(bytes[i] == front[i]);
        }
        assert(bytes.last() != NEWLINE_BYTE) by {
            assert(bytes[bytes.len() - 1] == bytes.last());
        }
        law_printed_text_is_shown(screen, front);
        let before = screen.cleared().print(front);
        assert(before.target() == front.len());
        assert(shown == before.print_byte(bytes.last()));
        assert forall|k: int| 0 <= k < bytes.len() implies shown.chars().take(
            bytes.len() as int,
        )[k] == bytes[k] by {
            if k < front.len() {
                assert(before.chars().take(front.len() as int)[k] == front[k]);
            }
        }
        assert(shown.chars().take(bytes.len() as int) =~= bytes);
    }
}

/// A saved file is seen again as it was written. On a left-aligned
/// display, `dump_file` puts the counted lines of the file into the first
/// cells of the display, character for character as they stood there when
/// the terminator was pressed, where those lines hold no newline byte.
pub proof fn law_dump_shows_what_was_seen(
    shell: ShellView,
    written: ScreenView,
    file: usize,
    later: ShellView,
    screen: ScreenView,
    argument: Seq<u8>,
)
    requires
        shell.wf(),
        written.wf(),
        shell.mode == Mode::EditingFile(file),
        later.tree == shell.on_key_pressed(written, KEY_TERMINATOR).shell.tree,
        later.tree.find_file_by_name(later.current_directory as int, text_of(argument)) == Some(
            file,
        ),
        screen.wf(),
        screen.align == Alignment::Left,
        !later.tree.dump_text(file as int).contains(NEWLINE_BYTE),
    ensures
        ({
            let lines = later.tree.files[file as int].count_lines;
            let shown = later.dump_file(screen, argument).screen;
            &&& 0 < lines <= MAX_LINES
            &&& shown.chars().take(lines * LINE_WIDTH) == written.chars().take(lines * LINE_WIDTH)
        }),
{
    let tree = shell.tree;
    let saved = tree.add_line(file as int).store_body(file as int, written.chars());
    lemma_add_line_wf(tree, file as int);
    lemma_store_body_wf(tree.add_line(file as int), file as int, written.chars());
    assert(later.tree == saved);
    assert(saved.file_wf(file as int));
    let lines = saved.files[file as int].count_lines;
    let text = saved.dump_text(file as int);
    assert(0 < lines <= MAX_LINES);
    assert(lines * LINE_WIDTH <= BUF_SIZE) by (nonlinear_arith)
        requires
            lines <= 25,
            LINE_WIDTH == 80,
            BUF_SIZE == 2000,
    ;
    assert(text == written.chars().take(lines * LINE_WIDTH));
    law_printed_text_is_shown(screen, text);
}

/// The keys `keys` are ones that go to the display while a file is
/// edited: none is a newline, a backspace or the terminator.
pub open spec fn plain_keys(keys: Seq<u8>) -> bool {
    forall|k: int|
        0 <= k < keys.len() ==> #[trigger] keys[k] != KEY_NEWLINE && keys[k] != KEY_BACKSPACE
            && keys[k] != KEY_TERMINATOR
}

/// While a file is edited, keys that go to the display are printed there
/// one after the other and change nothing else.
pub proof fn lemma_editing_prints_keys(
    shell: ShellView,
    screen: ScreenView,
    file: usize,
    keys: Seq<u8>,
)
    requires
        shell.mode == Mode::EditingFile(file),
        plain_keys(keys),
    ensures
        type_keys(shell, screen, keys).shell == shell,
        type_keys(shell, screen, keys).screen == screen.print(keys),
    decreases keys.len(),
{
    if keys.len() > 0 {
        let front = keys.drop_last();
        assert forall|k: int| 0 <= k < front.len() implies #[trigger] front[k] != KEY_NEWLINE
            && front[k] != KEY_BACKSPACE && front[k] != KEY_TERMINATOR by {
            assert(keys[k] == front[k]);
        }
        assert(keys[keys.len() - 1] == keys.last());
        lemma_editing_prints_keys(shell, screen, file, front);
    }
}

/// One line of a file's body that starts with `text`: the text, and blanks
/// up to the width of a line.
pub open spec fn line_of_text(text: Seq<u8>) -> Seq<u8> {
    Seq::new(
        LINE_WIDTH as nat,
        |k: int|
            if k < text.len() {
                text[k]
            } else {
                BLANK_BYTE
            },
    )
}

/// What is typed into a new file is what the file dumps. A file is opened
/// for editing on a left-aligned display, which is blank with the cursor in
/// its first cell; keys that go to the display are pressed, no more than a
/// line holds, and the terminator ends the editing. The file then counts one
/// line, and `dump_file` blanks the display and prints exactly one line of
/// characters: the keys that were pressed, and blanks after them.
pub proof fn law_typed_line_is_dumped(
    shell: ShellView,
    screen: ScreenView,
    file: usize,
    keys: Seq<u8>,
    later: ScreenView,
    argument: Seq<u8>,
)
    requires
        shell.mode == Mode::EditingFile(file),
        shell.tree.file_live(file as int),
        shell.tree.files[file as int].count_lines == 0,
        screen.wf(),
        screen.align == Alignment::Left,
        plain_keys(keys),
        keys.len() <= LINE_WIDTH,
        type_keys(shell, screen.cleared(), keys).shell.on_key_pressed(
            type_keys(shell, screen.cleared(), keys).screen,
            KEY_TERMINATOR,
        ).shell.tree.find_file_by_name(shell.current_directory as int, text_of(argument)) == Some(
            file,
        ),
    ensures
        ({
            let typed = type_keys(shell, screen.cleared(), keys);
            let saved = typed.shell.on_key_pressed(typed.screen, KEY_TERMINATOR).shell;
            let dumped = saved.dump_file(later, argument);
            &&& saved.mode == Mode::Normal
            &&& saved.current_directory == shell.current_directory
            &&& saved.tree.files[file as int].count_lines == 1
            &&& saved.tree.dump_text(file as int) == line_of_text(keys)
            &&& saved.tree.dump_text(file as int).len() == LINE_WIDTH
            &&& dumped.result is Ok
            &&& dumped.shell == saved
            &&& dumped.screen == later.cleared().print(line_of_text(keys))
        }),
{
    let typed = type_keys(shell, screen.cleared(), keys);
    lemma_editing_prints_keys(shell, screen.cleared(), file, keys);
    assert forall|k: int| 0 <= k < keys.len() implies keys[k] != NEWLINE_BYTE by {}
    law_printed_text_is_shown(screen, keys);
    let shown = screen.cleared().print(keys);
    let saved = typed.shell.on_key_pressed(typed.screen, KEY_TERMINATOR).shell;
    let text = saved.tree.dump_text(file as int);
    assert(LINE_WIDTH == 80 && MAX_LINES == 25 && BUF_SIZE == 2000);
    assert(saved.tree.files[file as int].count_lines == 1);
    assert(saved.tree.files[file as int].context == shown.chars());
    assert forall|k: int| 0 <= k < LINE_WIDTH implies text[k] == line_of_text(keys)[k] by {
        if k < keys.len() {
            assert(shown.chars().take(keys.len() as int)[k] == keys[k]);
        } else {
            assert(shown.cells[k] == blank());
        }
    }
    assert(text =~= line_of_text(keys));
}

/// A directory that holds a file is not removed, and stays listed. Where
/// the current directory holds one directory, named by the argument, with
/// one file in it, `remove_dir` is refused with `HasChildren` and changes
/// nothing, and `dir_tree` after it shows the current directory, the
/// directory in it and the file in that, each once.
pub proof fn law_refused_removal_stays_listed(
    shell: ShellView,
    screen: ScreenView,
    later: ScreenView,
    argument: Seq<u8>,
    child: int,
    file: int,
)
    requires
        shell.wf(),
        holds_one_directory_with_one_file(shell.tree, shell.current_directory as int, child, file),
        text_of(argument).len() > 0,
        name_is(text_of(argument), shell.tree.dirs[child].name),
    ensures
        ({
            let refused = shell.remove_dir(screen, argument);
            let listed = refused.shell.dir_tree(later);
            &&& refused.result == Err::<(), ShellError>(ShellError::HasChildren)
            &&& refused.shell == shell
            &&& refused.screen == screen.print(
                error_message(ShellError::HasChildren, Subject::Directory, text_of(argument)),
            )
            &&& listed.shell == shell
            &&& listed.screen == later.print(line_end()).print(
                listing_of_one_directory_with_one_file(
                    shell.tree,
                    shell.current_directory as int,
                    child,
                    file,
                ),
            )
        }),
{
    let dir = shell.current_directory as int;
    assert(shell.tree.dirs[child].files_indexes[0] != CLEAR_MARKER_FILE);
    law_remove_refuses_full_directory(shell.tree, dir, text_of(argument), 0);
    law_listing_of_one_directory_with_one_file(shell.tree, dir, child, file);
}

} // verus!
