use unios::vga_buf::{
    Alignment, AsciiChar, Color, Screen, BUF_HEIGHT, BUF_SIZE, BUF_WIDTH, DEFAULT_COLOR,
};

fn blank() -> AsciiChar {
    AsciiChar { char_byte: b' ', color_byte: DEFAULT_COLOR }
}

fn left_screen() -> Screen {
    Screen::new(Color::Black, Color::Green, Alignment::Left)
}

fn row_text(screen: &Screen, row: usize, len: usize) -> Vec<u8> {
    let chars = screen.get_buffer();
    chars[row * 80..row * 80 + len].to_vec()
}

#[test]
fn surface_has_twenty_five_rows_of_eighty_cells() {
    assert_eq!(BUF_HEIGHT, 25);
    assert_eq!(BUF_WIDTH, 80);
    assert_eq!(BUF_SIZE, 2000);
    assert_eq!(DEFAULT_COLOR, 0x0a);
}

#[test]
fn new_screen_is_blank() {
    let screen = left_screen();
    assert_eq!(screen.row(), 0);
    assert_eq!(screen.column(), 0);
    assert_eq!(screen.color(), 0x02);
    assert_eq!(screen.alignment(), Alignment::Left);
    for offset in 0..2000u32 {
        assert_eq!(screen.read_char(offset), blank());
    }
}

#[test]
fn color_byte_has_background_in_the_high_bits() {
    let screen = Screen::new(Color::Silver, Color::Cyan, Alignment::Center);
    assert_eq!(screen.color(), 0x83);
    let screen = Screen::new(Color::White, Color::Red, Alignment::Left);
    assert_eq!(screen.color(), 0xf4);
}

#[test]
fn color_codes() {
    assert_eq!(Color::White.code(), 0xf);
    assert_eq!(Color::Black.code(), 0x0);
    assert_eq!(Color::Blue.code(), 0x1);
    assert_eq!(Color::Green.code(), 0x2);
    assert_eq!(Color::Cyan.code(), 0x3);
    assert_eq!(Color::Red.code(), 0x4);
    assert_eq!(Color::Purple.code(), 0x5);
    assert_eq!(Color::Brown.code(), 0x6);
    assert_eq!(Color::Silver.code(), 0x8);
}

#[test]
fn rows_start_at_the_alignment_column() {
    assert_eq!(Screen::calculate_align(&Alignment::Left), 0);
    assert_eq!(Screen::calculate_align(&Alignment::Right), 80);
    assert_eq!(Screen::calculate_align(&Alignment::Center), 0);
    let screen = Screen::new(Color::Black, Color::White, Alignment::Right);
    assert_eq!(screen.column(), 80);
}

#[test]
fn write_then_read_gives_the_cell_back() {
    let mut screen = left_screen();
    let cell = AsciiChar { char_byte: b'Q', color_byte: 0x4f };
    screen.write_char(1999, cell);
    assert_eq!(screen.read_char(1999), cell);
    assert_eq!(screen.read_char(1998), blank());
    screen.write_byte(7, b'z');
    assert_eq!(screen.read_char(7), AsciiChar { char_byte: b'z', color_byte: 0x02 });
    assert_eq!(screen.row(), 0);
    assert_eq!(screen.column(), 0);
}

#[test]
fn hello_world_goes_to_the_first_cells() {
    let mut screen = Screen::new(Color::Blue, Color::White, Alignment::Left);
    screen.print_hello_world();
    assert_eq!(row_text(&screen, 0, 12), b"Hello world!".to_vec());
    assert_eq!(screen.read_char(0), AsciiChar { char_byte: b'H', color_byte: 0x1f });
    assert_eq!(screen.read_char(12), blank());
    assert_eq!(screen.column(), 0);
}

#[test]
fn left_aligned_text_advances_the_cursor() {
    let mut screen = left_screen();
    screen.print("ab");
    assert_eq!(screen.read_char(0), AsciiChar { char_byte: b'a', color_byte: 0x02 });
    assert_eq!(screen.read_char(1), AsciiChar { char_byte: b'b', color_byte: 0x02 });
    assert_eq!(screen.read_char(2), blank());
    assert_eq!((screen.row(), screen.column()), (0, 2));
}

#[test]
fn newline_starts_the_next_row() {
    let mut screen = left_screen();
    screen.print("ab\ncd");
    assert_eq!(row_text(&screen, 0, 3), b"ab ".to_vec());
    assert_eq!(row_text(&screen, 1, 3), b"cd ".to_vec());
    assert_eq!((screen.row(), screen.column()), (1, 2));
}

#[test]
fn newline_on_the_last_row_scrolls() {
    let mut screen = left_screen();
    screen.print("top");
    for _ in 0..24 {
        screen.print_byte(b'\n');
    }
    assert_eq!(screen.row(), 24);
    assert_eq!(row_text(&screen, 0, 3), b"top".to_vec());
    screen.print("last");
    screen.print_byte(b'\n');
    assert_eq!((screen.row(), screen.column()), (24, 0));
    assert_eq!(row_text(&screen, 0, 3), b"   ".to_vec());
    assert_eq!(row_text(&screen, 23, 4), b"last".to_vec());
    assert_eq!(row_text(&screen, 24, 4), b"    ".to_vec());
    assert_eq!(screen.read_char(24 * 80), blank());
}

#[test]
fn left_aligned_text_runs_on_into_the_next_row() {
    let mut screen = left_screen();
    let text = [b'x'; 82];
    screen.print_bytes(&text);
    assert_eq!((screen.row(), screen.column()), (0, 82));
    assert_eq!(screen.read_char(81).char_byte, b'x');
    assert_eq!(screen.read_char(82), blank());
}

#[test]
fn text_beyond_the_surface_is_dropped() {
    let mut screen = left_screen();
    for _ in 0..24 {
        screen.print_byte(b'\n');
    }
    let text = [b'y'; 90];
    screen.print_bytes(&text);
    assert_eq!((screen.row(), screen.column()), (24, 80));
    assert_eq!(screen.read_char(1999).char_byte, b'y');
    assert_eq!(row_text(&screen, 0, 2), b"  ".to_vec());
}

#[test]
fn centred_text_grows_from_the_middle() {
    let mut screen = Screen::new(Color::Black, Color::White, Alignment::Center);
    screen.print("abc");
    assert_eq!(screen.read_char(38), blank());
    assert_eq!(screen.read_char(39).char_byte, b'a');
    assert_eq!(screen.read_char(40).char_byte, b'b');
    assert_eq!(screen.read_char(41).char_byte, b'c');
    assert_eq!(screen.read_char(42), blank());
    assert_eq!((screen.row(), screen.column()), (0, 3));
}

#[test]
fn right_aligned_byte_shifts_the_row_and_lands_at_the_cursor() {
    let mut screen = Screen::new(Color::Black, Color::White, Alignment::Right);
    screen.write_byte(5, b'k');
    screen.print("r");
    assert_eq!(screen.read_char(4).char_byte, b'k');
    assert_eq!(screen.read_char(5).char_byte, b' ');
    assert_eq!(screen.read_char(80).char_byte, b'r');
    assert_eq!((screen.row(), screen.column()), (0, 80));
}

#[test]
fn move_left_shifts_the_cursor_row_only() {
    let mut screen = left_screen();
    screen.print("abc\nxyz");
    screen.move_left();
    assert_eq!(row_text(&screen, 0, 3), b"abc".to_vec());
    assert_eq!(row_text(&screen, 1, 3), b"yz ".to_vec());
    assert_eq!((screen.row(), screen.column()), (1, 3));
}

#[test]
fn move_left_keeps_the_last_cell() {
    let mut screen = left_screen();
    screen.write_byte(79, b'e');
    screen.write_byte(80, b'n');
    screen.move_left();
    assert_eq!(screen.read_char(78).char_byte, b'e');
    assert_eq!(screen.read_char(79).char_byte, b'e');
    assert_eq!(screen.read_char(80).char_byte, b'n');
}

#[test]
fn scroll_up_moves_rows_and_blanks_the_last() {
    let mut screen = left_screen();
    screen.write_byte(0, b'0');
    screen.write_byte(80, b'1');
    screen.write_byte(24 * 80 + 79, b'9');
    screen.scroll_up();
    assert_eq!(screen.read_char(0).char_byte, b'1');
    assert_eq!(screen.read_char(80), blank());
    assert_eq!(screen.read_char(23 * 80 + 79).char_byte, b'9');
    assert_eq!(screen.read_char(24 * 80 + 79), blank());
    assert_eq!((screen.row(), screen.column()), (0, 0));
}

#[test]
fn clear_blanks_and_homes_the_cursor() {
    let mut screen = left_screen();
    screen.print("some\ntext");
    screen.clear();
    assert_eq!((screen.row(), screen.column()), (0, 0));
    for offset in 0..2000u32 {
        assert_eq!(screen.read_char(offset), blank());
    }
    assert_eq!(screen.color(), 0x02);
}

#[test]
fn delete_last_char_steps_back_and_blanks() {
    let mut screen = left_screen();
    screen.print(" $ ab");
    screen.delete_last_char(3);
    assert_eq!(row_text(&screen, 0, 5), b" $ a ".to_vec());
    assert_eq!(screen.read_char(4), AsciiChar { char_byte: b' ', color_byte: 0x02 });
    assert_eq!(screen.column(), 4);
    screen.delete_last_char(3);
    assert_eq!(screen.column(), 3);
    assert_eq!(row_text(&screen, 0, 5), b" $   ".to_vec());
}

#[test]
fn delete_last_char_keeps_the_leading_columns() {
    let mut screen = left_screen();
    screen.print(" $ ");
    screen.delete_last_char(3);
    assert_eq!(screen.column(), 3);
    assert_eq!(row_text(&screen, 0, 3), b" $ ".to_vec());
    screen.delete_last_char(0);
    assert_eq!(screen.column(), 2);
    assert_eq!(row_text(&screen, 0, 3), b" $ ".to_vec());
    screen.delete_last_char(0);
    screen.delete_last_char(0);
    screen.delete_last_char(0);
    assert_eq!(screen.column(), 0);
    assert_eq!(row_text(&screen, 0, 3), b"   ".to_vec());
}

#[test]
fn get_buffer_gives_the_characters() {
    let mut screen = left_screen();
    screen.print("hi");
    let chars = screen.get_buffer();
    assert_eq!(chars.len(), 2000);
    assert_eq!(&chars[..3], b"hi ");
    assert!(chars[2..].iter().all(|&c| c == b' '));
    let cells = screen.get_cells();
    assert_eq!(cells[1], AsciiChar { char_byte: b'i', color_byte: 0x02 });
    assert_eq!(cells[2], blank());
}

#[test]
fn printed_text_stands_in_the_first_cells_of_a_blank_screen() {
    let mut screen = left_screen();
    screen.print("junk\nmore");
    screen.clear();
    let text: Vec<u8> = (0..200u32).map(|k| b'a' + (k % 26) as u8).collect();
    screen.print_bytes(&text);
    let chars = screen.get_buffer();
    assert_eq!(&chars[..200], &text[..]);
    assert!(chars[200..].iter().all(|&c| c == b' '));
    assert_eq!((screen.row(), screen.column()), (0, 200));
}
