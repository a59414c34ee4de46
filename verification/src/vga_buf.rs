//! The display surface: a grid of 25 rows by 80 columns of coloured
//! character cells with a write cursor.
//!
//! The surface is held in memory. Whoever owns the hardware copies
//! [`Screen::get_cells`] to it; nothing here touches a device.

use vstd::prelude::*;
use vstd::string::StringSliceAdditionalSpecFns;

verus! {

/// Number of rows of the surface.
pub const BUF_HEIGHT: u32 = 25;

/// Number of columns of the surface.
pub const BUF_WIDTH: u32 = 80;

/// Number of cells of the surface, `BUF_HEIGHT * BUF_WIDTH`.
pub const BUF_SIZE: usize = 2000;

/// Light green on black: the colour of a blank cell.
pub const DEFAULT_COLOR: u8 = 0x0a;

/// The byte of a blank cell.
pub const BLANK_BYTE: u8 = 0x20;

/// The byte that starts a new row when printed.
pub const NEWLINE_BYTE: u8 = 0x0a;

/// One cell of the surface.
#[derive(Clone, Copy, Debug, PartialEq, Eq, Structural)]
pub struct AsciiChar {
    pub char_byte: u8,
    pub color_byte: u8,
}

/// The colours a cell can take, for its text and for its background.
#[derive(Clone, Copy, Debug, PartialEq, Eq, Structural)]
pub enum Color {
    White,
    Black,
    Blue,
    Green,
    Cyan,
    Red,
    Purple,
    Brown,
    Silver,
}

/// Where printed text is placed on its row.
#[derive(Clone, Copy, Debug, PartialEq, Eq, Structural)]
pub enum Alignment {
    Left,
    Right,
    Center,
}

impl Color {
    /// The four-bit code of the colour.
    pub open spec fn spec_code(self) -> u8 {
        match self {
            Color::White => 0xf,
            Color::Black => 0x0,
            Color::Blue => 0x1,
            Color::Green => 0x2,
            Color::Cyan => 0x3,
            Color::Red => 0x4,
            Color::Purple => 0x5,
            Color::Brown => 0x6,
            Color::Silver => 0x8,
        }
    }

    /// The four-bit code of the colour.
    #[verifier::when_used_as_spec(spec_code)]
    pub fn code(self) -> (c: u8)
        ensures
            c == self.spec_code(),
            c < 16,
    {
        match self {
            Color::White => 0xf,
            Color::Black => 0x0,
            Color::Blue => 0x1,
            Color::Green => 0x2,
            Color::Cyan => 0x3,
            Color::Red => 0x4,
            Color::Purple => 0x5,
            Color::Brown => 0x6,
            Color::Silver => 0x8,
        }
    }
}

/// A blank cell: a space in the default colour.
pub open spec fn blank() -> AsciiChar {
    AsciiChar { char_byte: BLANK_BYTE, color_byte: DEFAULT_COLOR }
}

/// The colour byte of a background and a text colour: the background in the
/// high four bits, the text in the low four.
pub open spec fn color_byte_of(bg_color: Color, text_color: Color) -> u8 {
    (bg_color.spec_code() * 16 + text_color.spec_code()) as u8
}

/// The column at which a row starts under an alignment.
pub open spec fn home_column(align: Alignment) -> int {
    match align {
        Alignment::Left => 0,
        Alignment::Right => BUF_WIDTH as int,
        Alignment::Center => 0,
    }
}

/// The surface as a value: its cells in row-major order, the colour of
/// printed text, the alignment, and the cursor.
pub struct ScreenView {
    pub cells: Seq<AsciiChar>,
    pub color: u8,
    pub align: Alignment,
    pub rows: int,
    pub columns: int,
}

impl ScreenView {
    /// The surface has all its cells and the cursor is on one of its rows.
    pub open spec fn wf(self) -> bool {
        &&& self.cells.len() == BUF_SIZE
        &&& 0 <= self.rows < BUF_HEIGHT
        &&& 0 <= self.columns <= u32::MAX
    }

    /// The character bytes of all cells, in row-major order.
    pub open spec fn chars(self) -> Seq<u8> {
        Seq::new(self.cells.len(), |k: int| self.cells[k].char_byte)
    }

    /// The surface with one cell replaced.
    pub open spec fn put(self, offset: int, ch: AsciiChar) -> ScreenView {
        ScreenView { cells: self.cells.update(offset, ch), ..self }
    }

    /// The surface with `bytes` laid over the cells from `start` on, in the
    /// surface's colour.
    pub open spec fn overlay(self, start: int, bytes: Seq<u8>) -> ScreenView {
        ScreenView {
            cells: Seq::new(
                self.cells.len(),
                |k: int|
                    if start <= k < start + bytes.len() {
                        AsciiChar { char_byte: bytes[k - start], color_byte: self.color }
                    } else {
                        self.cells[k]
                    },
            ),
            ..self
        }
    }

    /// The cursor's row shifted one cell to the left: each cell but the last
    /// takes the content of its right neighbour, the first cell's content is
    /// lost, the last cell keeps its own.
    pub open spec fn moved_left(self) -> ScreenView {
        let first = self.rows * BUF_WIDTH;
        ScreenView {
            cells: Seq::new(
                self.cells.len(),
                |k: int|
                    if first <= k < first + BUF_WIDTH - 1 {
                        self.cells[k + 1]
                    } else {
                        self.cells[k]
                    },
            ),
            ..self
        }
    }

    /// Every row moved up by one: the top row is lost and the bottom row is
    /// blank. The cursor stays.
    pub open spec fn scrolled_up(self) -> ScreenView {
        ScreenView {
            cells: Seq::new(
                self.cells.len(),
                |k: int|
                    if k < BUF_SIZE - BUF_WIDTH {
                        self.cells[k + BUF_WIDTH]
                    } else {
                        blank()
                    },
            ),
            ..self
        }
    }

    /// The cursor taken to the start of the next row; on the last row the
    /// surface scrolls instead.
    pub open spec fn newline(self) -> ScreenView {
        if self.rows < BUF_HEIGHT - 1 {
            ScreenView { rows: self.rows + 1, columns: home_column(self.align), ..self }
        } else {
            ScreenView { columns: home_column(self.align), ..self.scrolled_up() }
        }
    }

    /// The cell that the next printed byte goes to.
    pub open spec fn target(self) -> int {
        match self.align {
            Alignment::Left => self.rows * BUF_WIDTH + self.columns,
            Alignment::Right => self.rows * BUF_WIDTH + self.columns,
            Alignment::Center => self.rows * BUF_WIDTH + BUF_WIDTH / 2 + self.columns / 2,
        }
    }

    /// The surface after one byte is printed.
    ///
    /// A newline byte moves the cursor. Any other byte goes to the cell
    /// `target()` in the surface's colour, and is dropped without any effect
    /// when that cell lies beyond the surface. Left-aligned, the cursor then
    /// advances. Right-aligned, the row is first shifted left and the cursor
    /// stays. Centred, the row is first shifted left when the column is odd,
    /// and the cursor advances.
    pub open spec fn print_byte(self, byte: u8) -> ScreenView {
        if byte == NEWLINE_BYTE {
            self.newline()
        } else if self.target() >= BUF_SIZE {
            self
        } else {
            let ch = AsciiChar { char_byte: byte, color_byte: self.color };
            match self.align {
                Alignment::Left => ScreenView {
                    columns: self.columns + 1,
                    ..self.put(self.target(), ch)
                },
                Alignment::Right => self.moved_left().put(self.target(), ch),
                Alignment::Center => {
                    let shifted = if self.columns % 2 != 0 {
                        self.moved_left()
                    } else {
                        self
                    };
                    ScreenView { columns: self.columns + 1, ..shifted.put(self.target(), ch) }
                },
            }
        }
    }

    /// The surface after `bytes` are printed one after the other.
    pub open spec fn print(self, bytes: Seq<u8>) -> ScreenView
        decreases bytes.len(),
    {
        if bytes.len() == 0 {
            self
        } else {
            self.print(bytes.drop_last()).print_byte(bytes.last())
        }
    }

    /// Every cell blank and the cursor at the start of the first row.
    pub open spec fn cleared(self) -> ScreenView {
        ScreenView {
            cells: Seq::new(self.cells.len(), |k: int| blank()),
            rows: 0,
            columns: home_column(self.align),
            ..self
        }
    }

    /// The surface after the last character of the cursor's row is struck
    /// out: the cursor steps back one column and the cell it then stands on
    /// becomes a space in the surface's colour. Nothing happens when the
    /// cursor's column is at most `keep`, the number of leading columns of
    /// the row that are never struck out.
    pub open spec fn deleted_last_char(self, keep: int) -> ScreenView {
        if self.columns > keep {
            let offset = self.rows * BUF_WIDTH + self.columns - 1;
            let moved = ScreenView { columns: self.columns - 1, ..self };
            if offset < BUF_SIZE {
                moved.put(offset, AsciiChar { char_byte: BLANK_BYTE, color_byte: self.color })
            } else {
                moved
            }
        } else {
            self
        }
    }
}

/// Printing one byte as a text is printing that byte.
pub proof fn lemma_print_one(screen: ScreenView, byte: u8)
    ensures
        screen.print(seq![byte]) == screen.print_byte(byte),
{
    assert(seq![byte].drop_last() =~= Seq::<u8>::empty());
    assert(screen.print(seq![byte].drop_last()) == screen);
}

/// Printing two texts one after the other is printing them joined.
pub proof fn lemma_print_concat(screen: ScreenView, first: Seq<u8>, second: Seq<u8>)
    ensures
        screen.print(first + second) == screen.print(first).print(second),
    decreases second.len(),
{
    if second.len() == 0 {
        assert(first + second =~= first);
    } else {
        lemma_print_concat(screen, first, second.drop_last());
        assert((first + second).drop_last() =~= first + second.drop_last());
        assert((first + second).last() == second.last());
    }
}

/// Printing keeps the surface well formed, its colour and its alignment.
pub proof fn lemma_print_wf(screen: ScreenView, bytes: Seq<u8>)
    requires
        screen.wf(),
    ensures
        screen.print(bytes).wf(),
        screen.print(bytes).color == screen.color,
        screen.print(bytes).align == screen.align,
    decreases bytes.len(),
{
    if bytes.len() > 0 {
        lemma_print_wf(screen, bytes.drop_last());
        let before = screen.print(bytes.drop_last());
        assert(before.target() < BUF_SIZE ==> before.columns < 2 * BUF_SIZE);
    }
}

/// The display surface.
pub struct Screen {
    cells: [AsciiChar; BUF_SIZE],
    color: u8,
    align: Alignment,
    rows: u32,
    columns: u32,
}

impl View for Screen {
    type V = ScreenView;

    closed spec fn view(&self) -> ScreenView {
        ScreenView {
            cells: self.cells@,
            color: self.color,
            align: self.align,
            rows: self.rows as int,
            columns: self.columns as int,
        }
    }
}

impl Screen {
    /// The cursor is on one of the surface's rows.
    pub open spec fn wf(&self) -> bool {
        self@.wf()
    }

    /// Every surface has `BUF_SIZE` cells.
    pub proof fn lemma_cell_count(&self)
        ensures
            self@.cells.len() == BUF_SIZE,
    {
    }

    /// A blank surface that prints in the given colours, with the cursor at
    /// the start of the first row.
    pub fn new(bg_color: Color, text_color: Color, _align: Alignment) -> (screen: Screen)
        ensures
            screen.wf(),
            screen@.cells == Seq::new(BUF_SIZE as nat, |k: int| blank()),
            screen@.color == color_byte_of(bg_color, text_color),
            screen@.align == _align,
            screen@.rows == 0,
            screen@.columns == home_column(_align),
    {
        let screen = Screen {
            cells: [AsciiChar { char_byte: BLANK_BYTE, color_byte: DEFAULT_COLOR }; BUF_SIZE],
            color: bg_color.code() * 16 + text_color.code(),
            columns: Screen::calculate_align(&_align),
            rows: 0,
            align: _align,
        };
        assert(screen@.cells =~= Seq::new(BUF_SIZE as nat, |k: int| blank()));
        screen
    }

    /// The column at which a row starts under an alignment.
    pub fn calculate_align(align: &Alignment) -> (column: u32)
        ensures
            column == home_column(*align),
    {
        match align {
            Alignment::Left => 0,
            Alignment::Right => BUF_WIDTH,
            Alignment::Center => 0,
        }
    }

    /// The cursor's row.
    pub fn row(&self) -> (r: u32)
        ensures
            r == self@.rows,
    {
        self.rows
    }

    /// The cursor's column.
    pub fn column(&self) -> (c: u32)
        ensures
            c == self@.columns,
    {
        self.columns
    }

    /// The colour byte of printed text.
    pub fn color(&self) -> (c: u8)
        ensures
            c == self@.color,
    {
        self.color
    }

    /// The alignment of printed text.
    pub fn alignment(&self) -> (a: Alignment)
        ensures
            a == self@.align,
    {
        self.align
    }

    /// Replaces the cell at `offset`.
    pub fn write_char(&mut self, offset: u32, char: AsciiChar)
        requires
            offset < BUF_SIZE,
        ensures
            final(self)@ == old(self)@.put(offset as int, char),
    {
        self.cells[offset as usize] = char;
    }

    /// Replaces the cell at `offset` by `symbol` in the surface's colour.
    pub fn write_byte(&mut self, offset: u32, symbol: u8)
        requires
            offset < BUF_SIZE,
        ensures
            final(self)@ == old(self)@.put(
                offset as int,
                AsciiChar { char_byte: symbol, color_byte: old(self)@.color },
            ),
    {
        self.cells[offset as usize] = AsciiChar { char_byte: symbol, color_byte: self.color };
    }

    /// The cell at `offset`.
    pub fn read_char(&self, offset: u32) -> (char: AsciiChar)
        requires
            offset < BUF_SIZE,
        ensures
            char == self@.cells[offset as int],
    {
        self.cells[offset as usize]
    }

    /// Writes the greeting into the first cells of the surface, in the
    /// surface's colour. The cursor stays.
    pub fn print_hello_world(&mut self)
        ensures
            final(self)@ == old(self)@.overlay(0, "Hello world!".spec_bytes()),
    {
        let text = "Hello world!";
        proof {
            reveal_strlit("Hello world!");
            vstd::string::is_ascii_spec_bytes(text);
        }
        let bytes = text.as_bytes();
        assert(bytes@.len() == 12);
        assert(self@.cells =~= old(self)@.overlay(0, bytes@.take(0)).cells);
        let mut i: usize = 0;
        while i < bytes.len()
            invariant
                i <= bytes@.len() == 12,
                self@ == old(self)@.overlay(0, bytes@.take(i as int)),
            decreases bytes@.len() - i,
        {
            self.write_byte(i as u32, bytes[i]);
            assert(self@.cells =~= old(self)@.overlay(0, bytes@.take(i + 1)).cells);
            i += 1;
        }
        assert(bytes@.take(12) =~= bytes@);
    }

    /// Shifts the cursor's row one cell to the left.
    pub fn move_left(&mut self)
        requires
            old(self).wf(),
        ensures
            final(self)@ == old(self)@.moved_left(),
    {
        let first: u32 = self.rows * BUF_WIDTH;
        let mut i: u32 = 1;
        while i < BUF_WIDTH
            invariant
                1 <= i <= BUF_WIDTH,
                first == old(self)@.rows * BUF_WIDTH,
                old(self).wf(),
                self@.color == old(self)@.color,
                self@.align == old(self)@.align,
                self@.rows == old(self)@.rows,
                self@.columns == old(self)@.columns,
                self@.cells.len() == BUF_SIZE,
                forall|k: int|
                    0 <= k < BUF_SIZE ==> #[trigger] self@.cells[k] == (if first <= k < first + i
                        - 1 {
                        old(self)@.cells[k + 1]
                    } else {
                        old(self)@.cells[k]
                    }),
            decreases BUF_WIDTH - i,
        {
            let moved = self.read_char(first + i);
            self.write_char(first + i - 1, moved);
            i += 1;
        }
        assert(self@.cells =~= old(self)@.moved_left().cells);
    }

    /// Moves every row up by one and blanks the bottom row.
    pub fn scroll_up(&mut self)
        ensures
            final(self)@ == old(self)@.scrolled_up(),
    {
        let last_row: u32 = (BUF_HEIGHT - 1) * BUF_WIDTH;
        let mut k: u32 = 0;
        while k < last_row
            invariant
                last_row == BUF_SIZE - BUF_WIDTH,
                k <= last_row,
                self@.color == old(self)@.color,
                self@.align == old(self)@.align,
                self@.rows == old(self)@.rows,
                self@.columns == old(self)@.columns,
                self@.cells.len() == BUF_SIZE,
                forall|j: int|
                    0 <= j < BUF_SIZE ==> #[trigger] self@.cells[j] == (if j < k {
                        old(self)@.cells[j + BUF_WIDTH]
                    } else {
                        old(self)@.cells[j]
                    }),
            decreases last_row - k,
        {
            let moved = self.read_char(k + BUF_WIDTH);
            self.write_char(k, moved);
            k += 1;
        }
        while k < BUF_HEIGHT * BUF_WIDTH
            invariant
                last_row == BUF_SIZE - BUF_WIDTH,
                last_row <= k <= BUF_SIZE,
                self@.color == old(self)@.color,
                self@.align == old(self)@.align,
                self@.rows == old(self)@.rows,
                self@.columns == old(self)@.columns,
                self@.cells.len() == BUF_SIZE,
                forall|j: int|
                    0 <= j < BUF_SIZE ==> #[trigger] self@.cells[j] == (if j < last_row {
                        old(self)@.cells[j + BUF_WIDTH]
                    } else if j < k {
                        blank()
                    } else {
                        old(self)@.cells[j]
                    }),
            decreases BUF_SIZE - k,
        {
            self.write_char(k, AsciiChar { char_byte: BLANK_BYTE, color_byte: DEFAULT_COLOR });
            k += 1;
        }
        assert(self@.cells =~= old(self)@.scrolled_up().cells);
    }

    /// Prints one byte at the cursor.
    pub fn print_byte(&mut self, byte: u8)
        requires
            old(self).wf(),
        ensures
            final(self).wf(),
            final(self)@ == old(self)@.print_byte(byte),
    {
        if byte == NEWLINE_BYTE {
            if self.rows < BUF_HEIGHT - 1 {
                self.rows += 1;
            } else {
                self.scroll_up();
            }
            self.columns = Screen::calculate_align(&self.align);
            return ;
        }
        let row_start: u32 = self.rows * BUF_WIDTH;
        let size: u32 = BUF_HEIGHT * BUF_WIDTH;
        match self.align {
            Alignment::Left => {
                if self.columns >= size - row_start {
                    return ;
                }
                let offset: u32 = row_start + self.columns;
                self.write_char(offset, AsciiChar { char_byte: byte, color_byte: self.color });
                self.columns += 1;
            },
            Alignment::Right => {
                if self.columns >= size - row_start {
                    return ;
                }
                let offset: u32 = row_start + self.columns;
                self.move_left();
                self.write_char(offset, AsciiChar { char_byte: byte, color_byte: self.color });
            },
            Alignment::Center => {
                let half: u32 = self.columns / 2;
                if half >= size - row_start - BUF_WIDTH / 2 {
                    return ;
                }
                let offset: u32 = row_start + BUF_WIDTH / 2 + half;
                if self.columns % 2 != 0 {
                    self.move_left();
                }
                self.write_char(offset, AsciiChar { char_byte: byte, color_byte: self.color });
                self.columns += 1;
            },
        }
    }

    /// Prints the bytes one after the other at the cursor.
    pub fn print_bytes(&mut self, bytes: &[u8])
        requires
            old(self).wf(),
        ensures
            final(self).wf(),
            final(self)@ == old(self)@.print(bytes@),
    {
        let mut i: usize = 0;
        while i < bytes.len()
            invariant
                i <= bytes@.len(),
                self.wf(),
                self@ == old(self)@.print(bytes@.take(i as int)),
            decreases bytes@.len() - i,
        {
            self.print_byte(bytes[i]);
            assert(bytes@.take(i + 1).drop_last() =~= bytes@.take(i as int));
            i += 1;
        }
        assert(bytes@.take(bytes@.len() as int) =~= bytes@);
    }

    /// Prints the text's bytes one after the other at the cursor.
    pub fn print(&mut self, s: &str)
        requires
            old(self).wf(),
        ensures
            final(self).wf(),
            final(self)@ == old(self)@.print(s.spec_bytes()),
    {
        self.print_bytes(s.as_bytes());
    }

    /// Blanks every cell and takes the cursor to the start of the first row.
    pub fn clear(&mut self)
        ensures
            final(self).wf(),
            final(self)@ == old(self)@.cleared(),
    {
        self.cells = [AsciiChar { char_byte: BLANK_BYTE, color_byte: DEFAULT_COLOR }; BUF_SIZE];
        self.rows = 0;
        self.columns = Screen::calculate_align(&self.align);
        assert(self@.cells =~= old(self)@.cleared().cells);
    }

    /// Strikes out the last character of the cursor's row, unless the
    /// cursor's column is at most `keep`.
    pub fn delete_last_char(&mut self, keep: u32)
        requires
            old(self).wf(),
        ensures
            final(self).wf(),
            final(self)@ == old(self)@.deleted_last_char(keep as int),
    {
        if self.columns > keep {
            self.columns -= 1;
            let row_start: u32 = self.rows * BUF_WIDTH;
            if self.columns < BUF_HEIGHT * BUF_WIDTH - row_start {
                let offset: u32 = row_start + self.columns;
                self.write_char(
                    offset,
                    AsciiChar { char_byte: BLANK_BYTE, color_byte: self.color },
                );
            }
        }
    }

    /// The character bytes of all cells, in row-major order.
    pub fn get_buffer(&self) -> (chars: [u8; BUF_SIZE])
        ensures
            chars@ == self@.chars(),
    {
        let mut chars: [u8; BUF_SIZE] = [BLANK_BYTE; BUF_SIZE];
        let mut k: usize = 0;
        while k < BUF_SIZE
            invariant
                k <= BUF_SIZE,
                forall|j: int| 0 <= j < k ==> #[trigger] chars@[j] == self@.cells[j].char_byte,
            decreases BUF_SIZE - k,
        {
            chars[k] = self.cells[k].char_byte;
            k += 1;
        }
        assert(chars@ =~= self@.chars());
        chars
    }

    /// All cells, in row-major order.
    pub fn get_cells(&self) -> (cells: [AsciiChar; BUF_SIZE])
        ensures
            cells@ == self@.cells,
    {
        self.cells
    }
}

} // verus!
