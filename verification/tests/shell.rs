use unios::error::{Capacity, ShellError};
use unios::shell::{compare, initialize, split, Shell};
use unios::shell_spec::{
    Mode, ARGUMENT_LENGTH, COMMAND_LENGTH, KEY_BACKSPACE, KEY_NEWLINE, KEY_SPACE, KEY_TERMINATOR,
    LINE_LENGTH,
};
use unios::vga_buf::{Alignment, Color, Screen};

fn session() -> (Shell, Screen) {
    let mut screen = Screen::new(Color::Black, Color::Green, Alignment::Left);
    initialize(&mut screen);
    (Shell::new(), screen)
}

fn press(shell: &mut Shell, screen: &mut Screen, text: &str) {
    for key in text.bytes() {
        assert_eq!(shell.on_key_pressed(screen, key), Ok(()));
    }
}

fn enter(shell: &mut Shell, screen: &mut Screen, line: &str) -> Result<(), ShellError> {
    press(shell, screen, line);
    shell.on_key_pressed(screen, b'\n')
}

fn row(screen: &Screen, row: usize) -> String {
    let chars = screen.get_buffer();
    String::from_utf8(chars[row * 80..row * 80 + 80].to_vec()).unwrap()
}

fn padded(text: &str) -> String {
    format!("{:<80}", text)
}

fn line_cells(text: &str) -> [u8; 80] {
    let mut cells = [0u8; 80];
    cells[..text.len()].copy_from_slice(text.as_bytes());
    cells
}

fn command_cells(text: &str) -> [u8; 10] {
    let mut cells = [0u8; 10];
    cells[..text.len()].copy_from_slice(text.as_bytes());
    cells
}

fn argument_cells(text: &str) -> [u8; 50] {
    let mut cells = [0u8; 50];
    cells[..text.len()].copy_from_slice(text.as_bytes());
    cells
}

#[test]
fn lengths_and_keys() {
    assert_eq!(LINE_LENGTH, 80);
    assert_eq!(COMMAND_LENGTH, 10);
    assert_eq!(ARGUMENT_LENGTH, 50);
    assert_eq!(KEY_NEWLINE, b'\n');
    assert_eq!(KEY_BACKSPACE, 8);
    assert_eq!(KEY_SPACE, b' ');
    assert_eq!(KEY_TERMINATOR, b'`');
}

#[test]
fn split_at_the_first_space() {
    let (command, argument) = split(line_cells("make_dir docs"), 13);
    assert_eq!(command, command_cells("make_dir"));
    assert_eq!(argument, argument_cells("docs"));
}

#[test]
fn split_without_space_has_no_argument() {
    let (command, argument) = split(line_cells("clear"), 5);
    assert_eq!(command, command_cells("clear"));
    assert_eq!(argument, [0u8; 50]);
    let (command, argument) = split(line_cells("clear "), 6);
    assert_eq!(command, command_cells("clear"));
    assert_eq!(argument, [0u8; 50]);
}

#[test]
fn split_keeps_later_spaces_in_the_argument() {
    let (command, argument) = split(line_cells("a b c  d"), 8);
    assert_eq!(command, command_cells("a"));
    assert_eq!(argument, argument_cells("b c  d"));
    let (command, argument) = split(line_cells(" x"), 2);
    assert_eq!(command, [0u8; 10]);
    assert_eq!(argument, argument_cells("x"));
}

#[test]
fn split_reads_the_typed_cells_only() {
    let (command, argument) = split(line_cells("cleardir docs"), 5);
    assert_eq!(command, command_cells("clear"));
    assert_eq!(argument, [0u8; 50]);
    let (command, argument) = split(line_cells("make_dir docs"), 11);
    assert_eq!(command, command_cells("make_dir"));
    assert_eq!(argument, argument_cells("do"));
    let (command, argument) = split(line_cells("make_dir docs"), 0);
    assert_eq!(command, [0u8; 10]);
    assert_eq!(argument, [0u8; 50]);
}

#[test]
fn split_cuts_the_command_to_ten_cells() {
    let (command, argument) = split(line_cells("abcdefghijklm nop"), 17);
    assert_eq!(command, *b"abcdefghij");
    assert_eq!(argument, argument_cells("nop"));
    let (command, argument) = split(line_cells("abcdefghijklm"), 13);
    assert_eq!(command, *b"abcdefghij");
    assert_eq!(argument, [0u8; 50]);
}

#[test]
fn split_cuts_the_argument_to_fifty_cells() {
    let text = format!("x {}", "y".repeat(78));
    let (command, argument) = split(line_cells(&text), 80);
    assert_eq!(command, command_cells("x"));
    assert_eq!(argument, [b'y'; 50]);
    let (command, argument) = split(line_cells(&text), 200);
    assert_eq!(command, command_cells("x"));
    assert_eq!(argument, [b'y'; 50]);
}

#[test]
fn compare_takes_the_whole_token() {
    assert!(compare("cur_dir", command_cells("cur_dir")));
    assert!(compare("change_dir", *b"change_dir"));
    assert!(compare("", [0u8; 10]));
    assert!(!compare("cur_dir", command_cells("cur_dirx")));
    assert!(!compare("cur_dir", command_cells("cur_di")));
    assert!(!compare("cur_dir", command_cells("Cur_dir")));
    assert!(!compare("cur_dir", [0u8; 10]));
    assert!(!compare("clear", command_cells("cur_dir")));
    assert!(!compare("remove_file", *b"remove_fil"));
    assert!(!compare("ab", *b"ab\0cd\0\0\0\0\0"));
    assert!(compare("ab", *b"ab\0\0\0\0\0\0\0\0"));
    assert!(!compare("changed_dir", *b"changed_di"));
    assert!(!compare("", command_cells("a")));
}

#[test]
fn new_session_is_at_the_root() {
    let (shell, screen) = session();
    assert_eq!(shell.current_directory(), 0);
    assert_eq!(shell.mode(), Mode::Normal);
    assert_eq!(shell.line(), Vec::<u8>::new());
    assert!(shell.tree().is_directory(0));
    assert!(!shell.tree().is_directory(1));
    assert_eq!(row(&screen, 0), padded(" $ "));
    assert_eq!((screen.row(), screen.column()), (0, 3));
}

#[test]
fn keys_go_into_the_line_and_onto_the_display() {
    let (mut shell, mut screen) = session();
    press(&mut shell, &mut screen, "make_dir docs");
    assert_eq!(shell.line(), b"make_dir docs".to_vec());
    assert_eq!(row(&screen, 0), padded(" $ make_dir docs"));
    assert!(!shell.tree().is_directory(1));
}

#[test]
fn backspace_takes_the_last_key() {
    let (mut shell, mut screen) = session();
    press(&mut shell, &mut screen, "ab");
    assert_eq!(shell.on_key_pressed(&mut screen, 8), Ok(()));
    assert_eq!(shell.line(), b"a".to_vec());
    assert_eq!(row(&screen, 0), padded(" $ a"));
    assert_eq!(shell.on_key_pressed(&mut screen, 8), Ok(()));
    assert_eq!(shell.on_key_pressed(&mut screen, 8), Ok(()));
    assert_eq!(shell.line(), Vec::<u8>::new());
    assert_eq!(row(&screen, 0), padded(" $ "));
    assert_eq!(screen.column(), 3);
    press(&mut shell, &mut screen, "clear");
    assert_eq!(shell.line(), b"clear".to_vec());
}

#[test]
fn terminator_does_nothing_at_the_prompt() {
    let (mut shell, mut screen) = session();
    press(&mut shell, &mut screen, "a`b");
    assert_eq!(shell.line(), b"ab".to_vec());
    assert_eq!(row(&screen, 0), padded(" $ ab"));
}

#[test]
fn full_line_takes_no_more_keys() {
    let (mut shell, mut screen) = session();
    for _ in 0..80 {
        assert_eq!(shell.on_key_pressed(&mut screen, b'a'), Ok(()));
    }
    let column = screen.column();
    assert_eq!(shell.on_key_pressed(&mut screen, b'b'), Err(ShellError::LineTooLong));
    assert_eq!(shell.on_key_pressed(&mut screen, b' '), Err(ShellError::LineTooLong));
    assert_eq!(shell.line(), vec![b'a'; 80]);
    assert_eq!(screen.column(), column);
    assert_eq!(shell.on_key_pressed(&mut screen, 8), Ok(()));
    assert_eq!(shell.on_key_pressed(&mut screen, b'c'), Ok(()));
    assert_eq!(shell.line().len(), 80);
    assert_eq!(shell.line()[79], b'c');
}

#[test]
fn long_command_token_is_refused() {
    let (mut shell, mut screen) = session();
    assert_eq!(
        enter(&mut shell, &mut screen, "make_directory docs"),
        Err(ShellError::LineTooLong)
    );
    assert_eq!(row(&screen, 1), padded("[error] The command is too long"));
    assert_eq!(row(&screen, 2), padded(" $ "));
    assert_eq!(shell.line(), Vec::<u8>::new());
    assert!(!shell.tree().is_directory(1));
    assert_eq!(
        enter(&mut shell, &mut screen, "remove_files docs"),
        Err(ShellError::LineTooLong)
    );
    assert_eq!(
        enter(&mut shell, &mut screen, "remove_fil docs"),
        Err(ShellError::CommandNotFound)
    );
    assert_eq!(enter(&mut shell, &mut screen, "abcdefghijk"), Err(ShellError::LineTooLong));
    assert_eq!(enter(&mut shell, &mut screen, "abcdefghij"), Err(ShellError::CommandNotFound));
}

#[test]
fn remove_file_is_told_by_the_line() {
    let (mut shell, mut screen) = session();
    enter(&mut shell, &mut screen, "make_file notes").unwrap();
    press(&mut shell, &mut screen, "hi");
    shell.on_key_pressed(&mut screen, b'`').unwrap();
    enter(&mut shell, &mut screen, "make_file other").unwrap();
    shell.on_key_pressed(&mut screen, b'`').unwrap();
    assert!(shell.tree().is_file(0));
    assert_eq!(enter(&mut shell, &mut screen, "remove_file notes"), Ok(()));
    assert!(!shell.tree().is_file(0));
    assert!(shell.tree().is_file(1));
    assert_eq!(shell.tree().find_file_by_name(0, b"notes"), None);
    assert_eq!(shell.tree().directory(0).unwrap().files_indexes[..3], [21, 1, 21]);
    assert_eq!(row(&screen, 0), padded(""));
    assert_eq!(row(&screen, 1), padded(" $ "));
    assert_eq!(shell.mode(), Mode::Normal);
    assert_eq!(enter(&mut shell, &mut screen, "remove_file notes"), Err(ShellError::NotFound));
    assert_eq!(row(&screen, 0), padded(""));
    assert_eq!(row(&screen, 1), padded("[Error] File \"notes\" does not exist!"));
    assert_eq!(row(&screen, 2), padded(" $ "));
    assert_eq!(enter(&mut shell, &mut screen, "remove_file"), Err(ShellError::EmptyName));
    assert_eq!(row(&screen, 1), padded("[Error] Specify a name of file"));
    assert_eq!(enter(&mut shell, &mut screen, "dump_file notes"), Err(ShellError::NotFound));
    assert_eq!(enter(&mut shell, &mut screen, "make_file notes"), Ok(()));
    assert_eq!(shell.mode(), Mode::EditingFile(0));
}

#[test]
fn unknown_command_is_reported() {
    let (mut shell, mut screen) = session();
    assert_eq!(enter(&mut shell, &mut screen, "list all"), Err(ShellError::CommandNotFound));
    assert_eq!(row(&screen, 1), padded("[error] Command 'list' is not supported"));
    assert_eq!(row(&screen, 2), padded(" $ "));
    assert_eq!(enter(&mut shell, &mut screen, ""), Err(ShellError::CommandNotFound));
    assert_eq!(row(&screen, 3), padded("[error] Command '' is not supported"));
    assert_eq!(enter(&mut shell, &mut screen, "CLEAR"), Err(ShellError::CommandNotFound));
    assert_eq!(enter(&mut shell, &mut screen, "cur_dirs"), Err(ShellError::CommandNotFound));
    assert_eq!(enter(&mut shell, &mut screen, "cur"), Err(ShellError::CommandNotFound));
}

#[test]
fn make_dir_reports_the_new_directory() {
    let (mut shell, mut screen) = session();
    assert_eq!(enter(&mut shell, &mut screen, "make_dir docs"), Ok(()));
    assert_eq!(row(&screen, 0), padded(" $ make_dir docs"));
    assert_eq!(row(&screen, 1), padded("[ok] Created new dir 'docs'"));
    assert_eq!(row(&screen, 2), padded(" $ "));
    assert_eq!(shell.line(), Vec::<u8>::new());
    assert_eq!(shell.tree().find_child_by_name(0, b"docs"), Some(1));
    assert_eq!(shell.current_directory(), 0);
}

#[test]
fn make_dir_errors() {
    let (mut shell, mut screen) = session();
    assert_eq!(enter(&mut shell, &mut screen, "make_dir"), Err(ShellError::EmptyName));
    assert_eq!(row(&screen, 1), padded("[Error] Specify a name of folder"));
    assert_eq!(
        enter(&mut shell, &mut screen, "make_dir elevenchars"),
        Err(ShellError::NameTooLong)
    );
    assert_eq!(
        row(&screen, 3),
        padded("[Error] The maximum number of characters has been exceeded")
    );
    assert_eq!(enter(&mut shell, &mut screen, "make_dir docs"), Ok(()));
    assert_eq!(enter(&mut shell, &mut screen, "make_dir docs"), Err(ShellError::DuplicateName));
    assert_eq!(row(&screen, 7), padded("[Error] Directory \"docs\" already exist"));
    assert_eq!(row(&screen, 8), padded(" $ "));
    assert!(!shell.tree().is_directory(2));
}

#[test]
fn make_dir_capacity_errors() {
    let (mut shell, mut screen) = session();
    for index in 0..10 {
        assert_eq!(enter(&mut shell, &mut screen, &format!("make_dir d{}", index)), Ok(()));
    }
    assert_eq!(
        enter(&mut shell, &mut screen, "make_dir more"),
        Err(ShellError::CapacityExceeded(Capacity::ChildrenPerDirectory))
    );
    assert_eq!(
        row(&screen, 21),
        padded("[Error] The maximum number of children directories")
    );
    assert_eq!(row(&screen, 22), padded(" $ "));
    assert_eq!(enter(&mut shell, &mut screen, "change_dir d0"), Ok(()));
    for index in 0..9 {
        assert_eq!(enter(&mut shell, &mut screen, &format!("make_dir d{}", index)), Ok(()));
    }
    assert_eq!(
        enter(&mut shell, &mut screen, "make_dir more"),
        Err(ShellError::CapacityExceeded(Capacity::Directories))
    );
    assert_eq!(row(&screen, 23), padded("[Error] The maximum number of directories"));
    assert_eq!(row(&screen, 24), padded(" $ "));
}

#[test]
fn change_dir_goes_down_and_up() {
    let (mut shell, mut screen) = session();
    enter(&mut shell, &mut screen, "make_dir docs").unwrap();
    assert_eq!(enter(&mut shell, &mut screen, "change_dir docs"), Ok(()));
    assert_eq!(shell.current_directory(), 1);
    assert_eq!(row(&screen, 3), padded("[ok] Directory has changed"));
    assert_eq!(row(&screen, 4), padded(" $ "));
    enter(&mut shell, &mut screen, "make_dir sub").unwrap();
    enter(&mut shell, &mut screen, "change_dir sub").unwrap();
    assert_eq!(shell.current_directory(), 2);
    assert_eq!(enter(&mut shell, &mut screen, "change_dir ."), Ok(()));
    assert_eq!(shell.current_directory(), 1);
    assert_eq!(enter(&mut shell, &mut screen, "change_dir .."), Err(ShellError::NotFound));
    assert_eq!(shell.current_directory(), 1);
    assert_eq!(enter(&mut shell, &mut screen, "change_dir ."), Ok(()));
    assert_eq!(shell.current_directory(), 0);
}

#[test]
fn change_dir_up_from_the_root_stays_at_the_root() {
    let (mut shell, mut screen) = session();
    assert_eq!(enter(&mut shell, &mut screen, "change_dir ."), Ok(()));
    assert_eq!(shell.current_directory(), 0);
    assert_eq!(row(&screen, 1), padded("[ok] Directory has changed"));
    assert_eq!(enter(&mut shell, &mut screen, "change_dir ."), Ok(()));
    assert_eq!(shell.current_directory(), 0);
    enter(&mut shell, &mut screen, "make_dir docs").unwrap();
    assert_eq!(enter(&mut shell, &mut screen, "change_dir ."), Ok(()));
    assert_eq!(shell.current_directory(), 0);
    assert_eq!(shell.tree().find_child_by_name(0, b"docs"), Some(1));
}

#[test]
fn change_dir_to_what_is_not_there() {
    let (mut shell, mut screen) = session();
    assert_eq!(enter(&mut shell, &mut screen, "change_dir docs"), Err(ShellError::NotFound));
    assert_eq!(row(&screen, 1), padded("[Error] Folder 'docs' does not exist"));
    assert_eq!(shell.current_directory(), 0);
    assert_eq!(enter(&mut shell, &mut screen, "change_dir"), Err(ShellError::NotFound));
    assert_eq!(row(&screen, 3), padded("[Error] Folder '' does not exist"));
}

#[test]
fn cur_dir_shows_the_path() {
    let (mut shell, mut screen) = session();
    assert_eq!(enter(&mut shell, &mut screen, "cur_dir"), Ok(()));
    assert_eq!(row(&screen, 1), padded("/root"));
    assert_eq!(row(&screen, 2), padded(" $ "));
    enter(&mut shell, &mut screen, "make_dir docs").unwrap();
    enter(&mut shell, &mut screen, "change_dir docs").unwrap();
    assert_eq!(enter(&mut shell, &mut screen, "cur_dir"), Ok(()));
    assert_eq!(row(&screen, 7), padded("/root/docs"));
}

#[test]
fn dir_tree_shows_the_tree() {
    let (mut shell, mut screen) = session();
    enter(&mut shell, &mut screen, "make_dir docs").unwrap();
    enter(&mut shell, &mut screen, "make_dir a").unwrap();
    enter(&mut shell, &mut screen, "change_dir docs").unwrap();
    enter(&mut shell, &mut screen, "make_dir sub").unwrap();
    enter(&mut shell, &mut screen, "change_dir .").unwrap();
    enter(&mut shell, &mut screen, "clear").unwrap();
    assert_eq!(row(&screen, 1), padded(" $ "));
    assert_eq!(enter(&mut shell, &mut screen, "dir_tree"), Ok(()));
    assert_eq!(row(&screen, 1), padded(" $ dir_tree"));
    assert_eq!(row(&screen, 2), padded("/root"));
    assert_eq!(row(&screen, 3), padded("    /docs"));
    assert_eq!(row(&screen, 4), padded("        /sub"));
    assert_eq!(row(&screen, 5), padded("    /a"));
    assert_eq!(row(&screen, 7), padded(" $ "));
}

#[test]
fn remove_dir_reports_the_removal() {
    let (mut shell, mut screen) = session();
    enter(&mut shell, &mut screen, "make_dir docs").unwrap();
    assert_eq!(enter(&mut shell, &mut screen, "remove_dir docs"), Ok(()));
    assert_eq!(row(&screen, 3), padded("[ok] Directory \"docs\" deleted"));
    assert!(!shell.tree().is_directory(1));
    assert_eq!(shell.tree().directory(0).unwrap().child_count, 0);
    assert_eq!(enter(&mut shell, &mut screen, "remove_dir docs"), Ok(()));
    assert_eq!(row(&screen, 4), padded(" $ remove_dir docs"));
    assert_eq!(row(&screen, 5), padded(" $ "));
    assert_eq!(enter(&mut shell, &mut screen, "remove_dir"), Err(ShellError::EmptyName));
    assert_eq!(row(&screen, 5), padded(" $ remove_dir"));
    assert_eq!(row(&screen, 6), padded("[Error] Specify a name of folder"));
    assert_eq!(row(&screen, 7), padded(" $ "));
}

#[test]
fn remove_dir_refuses_a_directory_with_children() {
    let (mut shell, mut screen) = session();
    enter(&mut shell, &mut screen, "make_dir docs").unwrap();
    enter(&mut shell, &mut screen, "change_dir docs").unwrap();
    enter(&mut shell, &mut screen, "make_dir sub").unwrap();
    enter(&mut shell, &mut screen, "change_dir .").unwrap();
    assert_eq!(enter(&mut shell, &mut screen, "remove_dir docs"), Err(ShellError::HasChildren));
    assert_eq!(row(&screen, 9), padded("[Error] Cannot delete a directory with children"));
    assert!(shell.tree().is_directory(1));
    assert!(shell.tree().is_directory(2));
}

#[test]
fn clear_blanks_the_display() {
    let (mut shell, mut screen) = session();
    enter(&mut shell, &mut screen, "make_dir docs").unwrap();
    assert_eq!(enter(&mut shell, &mut screen, "clear"), Ok(()));
    assert_eq!(row(&screen, 0), padded(""));
    assert_eq!(row(&screen, 1), padded(" $ "));
    assert_eq!(row(&screen, 2), padded(""));
    assert_eq!((screen.row(), screen.column()), (1, 3));
    assert!(shell.tree().is_directory(1));
}

#[test]
fn make_file_starts_the_editing() {
    let (mut shell, mut screen) = session();
    assert_eq!(enter(&mut shell, &mut screen, "make_file notes"), Ok(()));
    assert_eq!(shell.mode(), Mode::EditingFile(0));
    assert_eq!(shell.line(), Vec::<u8>::new());
    assert_eq!(row(&screen, 0), padded(""));
    assert_eq!((screen.row(), screen.column()), (0, 0));
    let record = shell.tree().file(0).unwrap();
    assert_eq!(record.name, *b"notes\0\0\0\0\0");
    assert_eq!(record.folder_index, 0);
    assert_eq!(record.count_lines, 0);
}

#[test]
fn make_file_errors() {
    let (mut shell, mut screen) = session();
    assert_eq!(enter(&mut shell, &mut screen, "make_file"), Err(ShellError::EmptyName));
    assert_eq!(row(&screen, 1), padded("[Error] Specify a name of file"));
    assert_eq!(
        enter(&mut shell, &mut screen, "make_file elevenchars"),
        Err(ShellError::NameTooLong)
    );
    assert_eq!(shell.mode(), Mode::Normal);
    enter(&mut shell, &mut screen, "make_file notes").unwrap();
    shell.on_key_pressed(&mut screen, b'`').unwrap();
    assert_eq!(enter(&mut shell, &mut screen, "make_file notes"), Err(ShellError::DuplicateName));
    assert_eq!(row(&screen, 3), padded("[Error] File \"notes\" already exist"));
    assert_eq!(shell.mode(), Mode::Normal);
    assert!(!shell.tree().is_file(1));
}

#[test]
fn make_file_capacity_errors() {
    let (mut shell, mut screen) = session();
    enter(&mut shell, &mut screen, "make_dir a").unwrap();
    enter(&mut shell, &mut screen, "make_dir b").unwrap();
    for index in 0..10 {
        enter(&mut shell, &mut screen, &format!("make_file f{}", index)).unwrap();
        shell.on_key_pressed(&mut screen, b'`').unwrap();
    }
    assert_eq!(
        enter(&mut shell, &mut screen, "make_file more"),
        Err(ShellError::CapacityExceeded(Capacity::FilesPerDirectory))
    );
    assert_eq!(row(&screen, 3), padded("[Error] The maximum number of files in directory"));
    enter(&mut shell, &mut screen, "change_dir a").unwrap();
    for index in 0..10 {
        enter(&mut shell, &mut screen, &format!("make_file f{}", index)).unwrap();
        shell.on_key_pressed(&mut screen, b'`').unwrap();
    }
    enter(&mut shell, &mut screen, "change_dir .").unwrap();
    enter(&mut shell, &mut screen, "change_dir b").unwrap();
    assert_eq!(
        enter(&mut shell, &mut screen, "make_file more"),
        Err(ShellError::CapacityExceeded(Capacity::Files))
    );
    assert_eq!(row(&screen, 7), padded("[Error] The maximum number of files"));
    assert_eq!(shell.mode(), Mode::Normal);
}

#[test]
fn editing_keys_go_to_the_display_only() {
    let (mut shell, mut screen) = session();
    enter(&mut shell, &mut screen, "make_file notes").unwrap();
    press(&mut shell, &mut screen, "hi there");
    assert_eq!(shell.line(), Vec::<u8>::new());
    assert_eq!(row(&screen, 0), padded("hi there"));
    assert_eq!(shell.tree().file(0).unwrap().count_lines, 0);
    assert!(shell.tree().file(0).unwrap().context.iter().all(|&b| b == b' '));
    assert_eq!(shell.on_key_pressed(&mut screen, 8), Ok(()));
    assert_eq!(row(&screen, 0), padded("hi ther"));
    assert_eq!(shell.on_key_pressed(&mut screen, b'\n'), Ok(()));
    assert_eq!(shell.tree().file(0).unwrap().count_lines, 1);
    assert_eq!(shell.mode(), Mode::EditingFile(0));
    assert_eq!((screen.row(), screen.column()), (1, 0));
    press(&mut shell, &mut screen, "make_dir x");
    assert_eq!(shell.on_key_pressed(&mut screen, b'\n'), Ok(()));
    assert!(!shell.tree().is_directory(1));
    assert_eq!(shell.tree().file(0).unwrap().count_lines, 2);
    for _ in 0..5 {
        shell.on_key_pressed(&mut screen, 8).unwrap();
    }
    assert_eq!((screen.row(), screen.column()), (2, 0));
}

#[test]
fn written_file_is_dumped_as_it_was_seen() {
    let (mut shell, mut screen) = session();
    enter(&mut shell, &mut screen, "make_dir docs").unwrap();
    enter(&mut shell, &mut screen, "change_dir docs").unwrap();
    enter(&mut shell, &mut screen, "make_file notes").unwrap();
    press(&mut shell, &mut screen, "hi");
    assert_eq!(shell.on_key_pressed(&mut screen, b'`'), Ok(()));
    assert_eq!(shell.mode(), Mode::Normal);
    assert_eq!(row(&screen, 1), padded("[ok] File \"notes\" saved succesfully!"));
    assert_eq!(row(&screen, 2), padded(" $ "));
    let record = shell.tree().file(0).unwrap();
    assert_eq!(record.count_lines, 1);
    assert_eq!(record.folder_index, 1);
    assert_eq!(shell.tree().dump_file(0), padded("hi").into_bytes());
    assert_eq!(enter(&mut shell, &mut screen, "dump_file notes"), Ok(()));
    assert_eq!(row(&screen, 0), padded("hi"));
    assert_eq!(row(&screen, 1), padded(" $ "));
    assert_eq!(row(&screen, 2), padded(""));
}

#[test]
fn lines_round_trip_through_a_file() {
    let (mut shell, mut screen) = session();
    enter(&mut shell, &mut screen, "make_file poem").unwrap();
    press(&mut shell, &mut screen, "first line");
    shell.on_key_pressed(&mut screen, b'\n').unwrap();
    press(&mut shell, &mut screen, "  second");
    shell.on_key_pressed(&mut screen, b'\n').unwrap();
    press(&mut shell, &mut screen, "third");
    let seen = screen.get_buffer();
    assert_eq!(&seen[..10], b"first line");
    assert_eq!(&seen[80..88], b"  second");
    assert_eq!(&seen[160..165], b"third");
    shell.on_key_pressed(&mut screen, b'`').unwrap();
    let record = shell.tree().file(0).unwrap();
    assert_eq!(record.count_lines, 3);
    assert_eq!(record.context, seen);
    assert_eq!(shell.tree().dump_file(0), seen[..240].to_vec());
    enter(&mut shell, &mut screen, "clear").unwrap();
    let mut other = Screen::new(Color::Black, Color::Green, Alignment::Left);
    assert_eq!(shell.dump_file(&mut other, argument_cells_of("poem")), Ok(()));
    let shown = other.get_buffer();
    assert_eq!(&shown[..240], &seen[..240]);
    assert!(shown[240..].iter().all(|&b| b == b' '));
}

fn argument_cells_of(text: &str) -> [u8; 50] {
    argument_cells(text)
}

#[test]
fn a_file_holds_a_full_display_at_most() {
    let (mut shell, mut screen) = session();
    enter(&mut shell, &mut screen, "make_file long").unwrap();
    for index in 0..30 {
        press(&mut shell, &mut screen, &format!("line {}", index));
        shell.on_key_pressed(&mut screen, b'\n').unwrap();
    }
    let seen = screen.get_buffer();
    shell.on_key_pressed(&mut screen, b'`').unwrap();
    let record = shell.tree().file(0).unwrap();
    assert_eq!(record.count_lines, 25);
    assert_eq!(shell.tree().dump_file(0), seen.to_vec());
    assert_eq!(&seen[..7], b"line 6 ");
    assert_eq!(&seen[23 * 80..23 * 80 + 7], b"line 29");
}

#[test]
fn edit_file_starts_over() {
    let (mut shell, mut screen) = session();
    enter(&mut shell, &mut screen, "make_file notes").unwrap();
    press(&mut shell, &mut screen, "old");
    shell.on_key_pressed(&mut screen, b'\n').unwrap();
    shell.on_key_pressed(&mut screen, b'`').unwrap();
    assert_eq!(shell.tree().file(0).unwrap().count_lines, 2);
    assert_eq!(enter(&mut shell, &mut screen, "edit_file notes"), Ok(()));
    assert_eq!(shell.mode(), Mode::EditingFile(0));
    assert_eq!(shell.tree().file(0).unwrap().count_lines, 0);
    assert_eq!(row(&screen, 0), padded(""));
    assert_eq!((screen.row(), screen.column()), (0, 0));
    press(&mut shell, &mut screen, "new");
    shell.on_key_pressed(&mut screen, b'`').unwrap();
    assert_eq!(shell.tree().dump_file(0), padded("new").into_bytes());
    assert_eq!(enter(&mut shell, &mut screen, "edit_file other"), Err(ShellError::NotFound));
    assert_eq!(row(&screen, 2), padded(" $ edit_file other"));
    assert_eq!(row(&screen, 3), padded("[Error] File \"other\" does not exist!"));
    assert_eq!(row(&screen, 4), padded(" $ "));
    assert_eq!(shell.mode(), Mode::Normal);
}

#[test]
fn dump_file_of_what_is_not_there() {
    let (mut shell, mut screen) = session();
    assert_eq!(enter(&mut shell, &mut screen, "dump_file notes"), Err(ShellError::NotFound));
    assert_eq!(row(&screen, 0), padded(""));
    assert_eq!(row(&screen, 1), padded("[Error] File \"notes\" does not exist!"));
    assert_eq!(row(&screen, 2), padded(" $ "));
}

#[test]
fn files_are_looked_up_in_the_current_directory_only() {
    let (mut shell, mut screen) = session();
    enter(&mut shell, &mut screen, "make_dir docs").unwrap();
    enter(&mut shell, &mut screen, "change_dir docs").unwrap();
    enter(&mut shell, &mut screen, "make_file notes").unwrap();
    shell.on_key_pressed(&mut screen, b'`').unwrap();
    enter(&mut shell, &mut screen, "change_dir .").unwrap();
    assert_eq!(enter(&mut shell, &mut screen, "dump_file notes"), Err(ShellError::NotFound));
    assert_eq!(enter(&mut shell, &mut screen, "edit_file notes"), Err(ShellError::NotFound));
}

#[test]
fn directory_that_holds_a_file_is_not_removed() {
    let (mut shell, mut screen) = session();
    enter(&mut shell, &mut screen, "make_dir docs").unwrap();
    enter(&mut shell, &mut screen, "change_dir docs").unwrap();
    enter(&mut shell, &mut screen, "make_file notes").unwrap();
    press(&mut shell, &mut screen, "hi");
    shell.on_key_pressed(&mut screen, b'`').unwrap();
    enter(&mut shell, &mut screen, "change_dir .").unwrap();
    assert_eq!(enter(&mut shell, &mut screen, "remove_dir docs"), Err(ShellError::HasChildren));
    assert!(shell.tree().is_directory(1));
    assert!(shell.tree().is_file(0));
    enter(&mut shell, &mut screen, "clear").unwrap();
    assert_eq!(enter(&mut shell, &mut screen, "dir_tree"), Ok(()));
    assert_eq!(row(&screen, 2), padded("/root"));
    assert_eq!(row(&screen, 3), padded("    /docs"));
    assert_eq!(row(&screen, 4), padded("        /notes.txt"));
    assert_eq!(shell.tree().print_tree(0), b"/root\n    /docs\n        /notes.txt\n".to_vec());
}

#[test]
fn remove_file_called_on_the_session() {
    let (mut shell, mut screen) = session();
    enter(&mut shell, &mut screen, "make_file notes").unwrap();
    shell.on_key_pressed(&mut screen, b'`').unwrap();
    assert_eq!(shell.remove_file(&mut screen, argument_cells("other")), Err(ShellError::NotFound));
    assert_eq!(row(&screen, 0), padded(""));
    assert_eq!(row(&screen, 1), padded("[Error] File \"other\" does not exist!"));
    assert!(shell.tree().is_file(0));
    assert_eq!(shell.remove_file(&mut screen, argument_cells("")), Err(ShellError::EmptyName));
    assert_eq!(shell.remove_file(&mut screen, argument_cells("notes")), Ok(()));
    assert!(!shell.tree().is_file(0));
    assert_eq!(row(&screen, 0), padded(""));
    assert_eq!(row(&screen, 1), padded(""));
    assert_eq!(shell.tree().directory(0).unwrap().files_indexes, [21; 10]);
}

#[test]
fn commands_called_on_the_session() {
    let (mut shell, mut screen) = session();
    assert_eq!(shell.make_dir(&mut screen, argument_cells("docs")), Ok(()));
    assert_eq!(shell.change_dir(&mut screen, argument_cells("docs")), Ok(()));
    assert_eq!(shell.current_directory(), 1);
    shell.cur_dir(&mut screen);
    assert_eq!(row(&screen, 3), padded("/root/docs"));
    assert_eq!(shell.change_dir(&mut screen, argument_cells(".")), Ok(()));
    assert_eq!(shell.remove_dir(&mut screen, argument_cells("docs")), Ok(()));
    assert_eq!(
        shell.command_distributor(&mut screen, (command_cells("make_dir"), argument_cells("a"))),
        Ok(())
    );
    assert_eq!(shell.tree().find_child_by_name(0, b"a"), Some(1));
    assert_eq!(
        shell.command_distributor(&mut screen, (*b"remove_fil", argument_cells("a"))),
        Err(ShellError::CommandNotFound)
    );
    shell.clear(&mut screen);
    shell.dir_tree(&mut screen);
    assert_eq!(row(&screen, 1), padded("/root"));
    assert_eq!(row(&screen, 2), padded("    /a"));
}

#[test]
fn refused_command_leaves_the_session_as_it_was() {
    let (mut shell, mut screen) = session();
    enter(&mut shell, &mut screen, "make_dir docs").unwrap();
    let root = shell.tree().directory(0).unwrap();
    for line in ["make_dir docs", "make_dir", "make_dir elevenchars", "bogus", "change_dir x"] {
        assert!(enter(&mut shell, &mut screen, line).is_err());
        let now = shell.tree().directory(0).unwrap();
        assert_eq!(now.child_count, root.child_count);
        assert_eq!(now.child_indexes, root.child_indexes);
        assert_eq!(now.files_indexes, root.files_indexes);
        assert_eq!(shell.current_directory(), 0);
        assert_eq!(shell.mode(), Mode::Normal);
        assert!(!shell.tree().is_directory(2));
    }
}

#[test]
fn lookups_give_the_slot_or_the_mark() {
    let (mut shell, mut screen) = session();
    assert_eq!(shell.get_folder_index_by_name(argument_cells("docs")), 21);
    assert_eq!(shell.get_file_index(argument_cells("notes")), 21);
    enter(&mut shell, &mut screen, "make_dir first").unwrap();
    enter(&mut shell, &mut screen, "make_dir docs").unwrap();
    enter(&mut shell, &mut screen, "make_file notes").unwrap();
    shell.on_key_pressed(&mut screen, b'`').unwrap();
    assert_eq!(shell.get_folder_index_by_name(argument_cells("docs")), 2);
    assert_eq!(shell.get_folder_index_by_name(argument_cells("first")), 1);
    assert_eq!(shell.get_folder_index_by_name(argument_cells("notes")), 21);
    assert_eq!(shell.get_file_index(argument_cells("notes")), 0);
    assert_eq!(shell.get_file_index(argument_cells("docs")), 21);
    enter(&mut shell, &mut screen, "change_dir docs").unwrap();
    assert_eq!(shell.get_folder_index_by_name(argument_cells("docs")), 21);
    assert_eq!(shell.get_file_index(argument_cells("notes")), 21);
}

#[test]
fn compare_goes_by_the_cells() {
    assert!(compare("a\0", command_cells("a")));
    assert!(compare("a\0\0", command_cells("a")));
    assert!(!compare("a\0b", command_cells("a")));
    assert!(compare("a\0b", *b"a\0b\0\0\0\0\0\0\0"));
    assert!(compare("\0", [0u8; 10]));
    assert!(!compare("a\0\0\0\0\0\0\0\0\0\0", command_cells("a")));
    assert!(compare("a\0\0\0\0\0\0\0\0\0", command_cells("a")));
}

#[test]
fn only_a_single_dot_goes_up() {
    let (mut shell, mut screen) = session();
    enter(&mut shell, &mut screen, "make_dir .x").unwrap();
    enter(&mut shell, &mut screen, "make_dir docs").unwrap();
    assert_eq!(enter(&mut shell, &mut screen, "change_dir .x"), Ok(()));
    assert_eq!(shell.current_directory(), 1);
    assert_eq!(shell.tree().resolve_path_display(1), b"/root/.x".to_vec());
    assert_eq!(enter(&mut shell, &mut screen, "change_dir ."), Ok(()));
    assert_eq!(shell.current_directory(), 0);
    assert_eq!(enter(&mut shell, &mut screen, "change_dir ./docs"), Err(ShellError::NotFound));
    assert_eq!(shell.current_directory(), 0);
    assert_eq!(enter(&mut shell, &mut screen, "change_dir . "), Err(ShellError::NotFound));
    assert_eq!(shell.current_directory(), 0);
    let mut dot_then_junk = argument_cells(".");
    dot_then_junk[2] = b'x';
    assert_eq!(shell.change_dir(&mut screen, argument_cells("docs")), Ok(()));
    assert_eq!(shell.change_dir(&mut screen, dot_then_junk), Ok(()));
    assert_eq!(shell.current_directory(), 0);
}

#[test]
fn remove_dir_goes_by_the_whole_name() {
    let (mut shell, mut screen) = session();
    enter(&mut shell, &mut screen, "make_dir abc").unwrap();
    assert_eq!(enter(&mut shell, &mut screen, "remove_dir ab"), Ok(()));
    assert_eq!(row(&screen, 2), padded(" $ remove_dir ab"));
    assert_eq!(row(&screen, 3), padded(" $ "));
    assert!(shell.tree().is_directory(1));
    assert_eq!(shell.tree().directory(0).unwrap().child_count, 1);
    assert_eq!(enter(&mut shell, &mut screen, "remove_dir abcd"), Ok(()));
    assert_eq!(enter(&mut shell, &mut screen, "remove_dir ABC"), Ok(()));
    assert_eq!(enter(&mut shell, &mut screen, "remove_dir abcdefghijklmno"), Ok(()));
    assert!(shell.tree().is_directory(1));
    assert_eq!(enter(&mut shell, &mut screen, "remove_dir abc"), Ok(()));
    assert!(!shell.tree().is_directory(1));
    assert_eq!(row(&screen, 6), padded(" $ remove_dir abc"));
    assert_eq!(row(&screen, 7), padded("[ok] Directory \"abc\" deleted"));
    assert_eq!(row(&screen, 8), padded(" $ "));
}

#[test]
fn remove_dir_refuses_the_named_directory_not_one_listed_before() {
    let (mut shell, mut screen) = session();
    enter(&mut shell, &mut screen, "make_dir x").unwrap();
    enter(&mut shell, &mut screen, "make_dir ab").unwrap();
    enter(&mut shell, &mut screen, "remove_dir x").unwrap();
    enter(&mut shell, &mut screen, "make_dir abc").unwrap();
    assert_eq!(shell.tree().directory(0).unwrap().child_indexes[..3], [1, 2, 21]);
    assert_eq!(shell.tree().directory(1).unwrap().name, *b"abc\0\0\0\0\0\0\0");
    enter(&mut shell, &mut screen, "change_dir ab").unwrap();
    assert_eq!(shell.current_directory(), 1);
    enter(&mut shell, &mut screen, "change_dir .").unwrap();
    assert_eq!(shell.change_dir(&mut screen, argument_cells("ab\0")), Ok(()));
    enter(&mut shell, &mut screen, "change_dir .").unwrap();
    let ab = 2;
    assert_eq!(shell.tree().directory(ab).unwrap().name, *b"ab\0\0\0\0\0\0\0\0");
    assert_eq!(shell.tree().find_child_named(0, b"ab"), Some(ab));
    let mut tree_probe = Shell::new();
    let mut probe_screen = Screen::new(Color::Black, Color::Green, Alignment::Left);
    tree_probe.make_dir(&mut probe_screen, argument_cells("x")).unwrap();
    tree_probe.make_dir(&mut probe_screen, argument_cells("ab")).unwrap();
    tree_probe.remove_dir(&mut probe_screen, argument_cells("x")).unwrap();
    tree_probe.make_dir(&mut probe_screen, argument_cells("abc")).unwrap();
    tree_probe.change_dir(&mut probe_screen, argument_cells("ab")).unwrap();
    assert_eq!(tree_probe.current_directory(), 1);
    tree_probe.change_dir(&mut probe_screen, argument_cells(".")).unwrap();
    assert_eq!(tree_probe.remove_dir(&mut probe_screen, argument_cells("ab")), Ok(()));
    assert!(tree_probe.tree().is_directory(1));
    assert!(!tree_probe.tree().is_directory(2));
    assert_eq!(tree_probe.tree().directory(0).unwrap().child_indexes[..3], [1, 21, 21]);
    assert_eq!(tree_probe.tree().directory(0).unwrap().child_count, 1);
}

#[test]
fn remove_file_ends_the_editing_of_the_removed_file() {
    let (mut shell, mut screen) = session();
    assert_eq!(shell.make_dir(&mut screen, argument_cells("d")), Ok(()));
    assert_eq!(shell.make_file(&mut screen, argument_cells("a")), Ok(()));
    assert_eq!(shell.mode(), Mode::EditingFile(0));
    assert_eq!(shell.make_file(&mut screen, argument_cells("b")), Ok(()));
    assert_eq!(shell.mode(), Mode::EditingFile(1));
    assert_eq!(shell.remove_file(&mut screen, argument_cells("b")), Ok(()));
    assert_eq!(shell.mode(), Mode::Normal);
    assert!(!shell.tree().is_file(1));
    assert!(shell.tree().file(1).is_none());
    let root = shell.tree().directory(0).unwrap();
    assert_eq!(root.files_indexes, [0, 21, 21, 21, 21, 21, 21, 21, 21, 21]);
    assert_eq!(root.child_indexes[0], 1);
    assert_eq!(root.child_count, 1);
    let a = shell.tree().file(0).unwrap();
    assert_eq!(a.index, 0);
    assert_eq!(a.name, *b"a\0\0\0\0\0\0\0\0\0");
    assert_eq!(a.folder_index, 0);
    press(&mut shell, &mut screen, "clear");
    assert_eq!(shell.line(), b"clear".to_vec());
}

#[test]
fn remove_file_of_another_file_keeps_the_editing() {
    let (mut shell, mut screen) = session();
    shell.make_file(&mut screen, argument_cells("a")).unwrap();
    shell.make_file(&mut screen, argument_cells("b")).unwrap();
    assert_eq!(shell.mode(), Mode::EditingFile(1));
    assert_eq!(shell.remove_file(&mut screen, argument_cells("a")), Ok(()));
    assert_eq!(shell.mode(), Mode::EditingFile(1));
    assert!(!shell.tree().is_file(0));
    assert!(shell.tree().is_file(1));
    assert_eq!(shell.remove_file(&mut screen, argument_cells("zz")), Err(ShellError::NotFound));
    assert_eq!(shell.mode(), Mode::EditingFile(1));
    press(&mut shell, &mut screen, "hi");
    shell.on_key_pressed(&mut screen, b'`').unwrap();
    assert_eq!(shell.tree().file(1).unwrap().count_lines, 1);
}
