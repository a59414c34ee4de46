//! Conway's game of life on a grid the size of the display surface.
//!
//! A cell lives when it holds [`LIVE_CELL`]. Cells beyond the edge of the
//! grid count as dead.

use crate::vga_buf::{Screen, BUF_SIZE};
use vstd::prelude::*;

verus! {

/// Number of rows of the grid.
pub const BUF_HEIGHT: u32 = 25;

/// Number of columns of the grid.
pub const BUF_WIDTH: u32 = 80;

/// The byte of a living cell, the letter `x`.
pub const LIVE_CELL: u8 = 0x78;

/// The byte of a dead cell, a space.
pub const DEAD_CELL: u8 = 0x20;

/// 1 when the cell in row `i` and column `j` lies on the grid and lives,
/// else 0.
pub open spec fn live_at(area: [[u8; 80]; 25], i: int, j: int) -> int {
    if 0 <= i < BUF_HEIGHT && 0 <= j < BUF_WIDTH && area[i][j] == LIVE_CELL {
        1
    } else {
        0
    }
}

/// The number of living cells among the eight around row `i`, column `j`.
pub open spec fn live_neighbors(area: [[u8; 80]; 25], i: int, j: int) -> int {
    live_at(area, i - 1, j - 1) + live_at(area, i - 1, j) + live_at(area, i - 1, j + 1) + live_at(
        area,
        i,
        j - 1,
    ) + live_at(area, i, j + 1) + live_at(area, i + 1, j - 1) + live_at(area, i + 1, j) + live_at(
        area,
        i + 1,
        j + 1,
    )
}

/// The cell in row `i`, column `j` one generation on: a living cell stays
/// alive with two or three living neighbours, a dead cell comes alive with
/// exactly three, and every other cell is dead.
pub open spec fn next_cell(area: [[u8; 80]; 25], i: int, j: int) -> u8 {
    let count = live_neighbors(area, i, j);
    if area[i][j] == LIVE_CELL && (count == 3 || count == 2) {
        LIVE_CELL
    } else if area[i][j] == DEAD_CELL && count == 3 {
        LIVE_CELL
    } else {
        DEAD_CELL
    }
}

/// The cells of the grid in row-major order.
pub open spec fn flat(area: [[u8; 80]; 25]) -> Seq<u8> {
    Seq::new((BUF_HEIGHT * BUF_WIDTH) as nat, |k: int| area[k / 80][k % 80])
}

/// Whether the cell in row `i`, column `j` lives in the first generation: a
/// glider gun.
pub open spec fn seed_alive(i: int, j: int) -> bool {
    if i == 3 {
        j == 36
    } else if i == 4 {
        j == 34 || j == 36
    } else if i == 5 {
        j == 24 || j == 25 || j == 32 || j == 33 || j == 46 || j == 47
    } else if i == 6 {
        j == 23 || j == 27 || j == 32 || j == 33 || j == 46 || j == 47
    } else if i == 7 {
        j == 12 || j == 13 || j == 22 || j == 28 || j == 32 || j == 33
    } else if i == 8 {
        j == 12 || j == 13 || j == 22 || j == 26 || j == 28 || j == 29 || j == 34 || j == 36
    } else if i == 9 {
        j == 22 || j == 28 || j == 36
    } else if i == 10 {
        j == 23 || j == 27
    } else if i == 11 {
        j == 24 || j == 25
    } else {
        false
    }
}

/// The cell in row `i`, column `j` of the generation that follows
/// `current_gen`; with none to follow, of the first generation.
pub open spec fn following_cell(current_gen: Option<[[u8; 80]; 25]>, i: int, j: int) -> u8 {
    match current_gen {
        None => if seed_alive(i, j) {
            LIVE_CELL
        } else {
            DEAD_CELL
        },
        Some(area) => next_cell(area, i, j),
    }
}

fn live_cell(area: &[[u8; 80]; 25], i: isize, j: isize) -> (count: u32)
    ensures
        count == live_at(*area, i as int, j as int),
{
    if i >= 0 && i < 25 && j >= 0 && j < 80 && area[i as usize][j as usize] == LIVE_CELL {
        1
    } else {
        0
    }
}

/// The first generation.
pub fn first_generation() -> (area: [[u8; 80]; 25])
    ensures
        forall|i: int, j: int|
            0 <= i < BUF_HEIGHT && 0 <= j < BUF_WIDTH ==> #[trigger] area[i][j] == (if seed_alive(
                i,
                j,
            ) {
                LIVE_CELL
            } else {
                DEAD_CELL
            }),
{
    let blank_row: [u8; 80] = [DEAD_CELL; 80];
    let mut area: [[u8; 80]; 25] = [blank_row; 25];
    let mut row: [u8; 80] = blank_row;
    row[36] = LIVE_CELL;
    area[3] = row;
    row[34] = LIVE_CELL;
    area[4] = row;
    row = blank_row;
    row[32] = LIVE_CELL;
    row[33] = LIVE_CELL;
    row[46] = LIVE_CELL;
    row[47] = LIVE_CELL;
    let mut upper: [u8; 80] = row;
    upper[24] = LIVE_CELL;
    upper[25] = LIVE_CELL;
    area[5] = upper;
    row[23] = LIVE_CELL;
    row[27] = LIVE_CELL;
    area[6] = row;
    row = blank_row;
    row[12] = LIVE_CELL;
    row[13] = LIVE_CELL;
    row[22] = LIVE_CELL;
    row[28] = LIVE_CELL;
    let mut lower: [u8; 80] = row;
    row[32] = LIVE_CELL;
    row[33] = LIVE_CELL;
    area[7] = row;
    lower[26] = LIVE_CELL;
    lower[29] = LIVE_CELL;
    lower[34] = LIVE_CELL;
    lower[36] = LIVE_CELL;
    area[8] = lower;
    row = blank_row;
    row[22] = LIVE_CELL;
    row[28] = LIVE_CELL;
    row[36] = LIVE_CELL;
    area[9] = row;
    row = blank_row;
    row[23] = LIVE_CELL;
    row[27] = LIVE_CELL;
    area[10] = row;
    row = blank_row;
    row[24] = LIVE_CELL;
    row[25] = LIVE_CELL;
    area[11] = row;
    area
}

/// Shows the grid on the surface: cell by cell, in the surface's colour.
/// The cursor stays.
pub fn output_to_the_screen(area: &[[u8; 80]; 25], screen: &mut Screen)
    ensures
        final(screen)@ == old(screen)@.overlay(0, flat(*area)),
{
    proof {
        screen.lemma_cell_count();
    }
    assert(screen@.cells =~= old(screen)@.overlay(0, flat(*area).take(0)).cells);
    let mut i: usize = 0;
    while i < 25
        invariant
            i <= 25,
            old(screen)@.cells.len() == BUF_SIZE,
            screen@ == old(screen)@.overlay(0, flat(*area).take(i * 80)),
        decreases 25 - i,
    {
        let mut j: usize = 0;
        while j < 80
            invariant
                i < 25,
                j <= 80,
                old(screen)@.cells.len() == BUF_SIZE,
                screen@ == old(screen)@.overlay(0, flat(*area).take(i * 80 + j)),
            decreases 80 - j,
        {
            let offset: usize = i * 80 + j;
            assert(offset / 80 == i && offset % 80 == j);
            assert(flat(*area)[offset as int] == area[i as int][j as int]);
            let ghost before = screen@;
            screen.write_byte(offset as u32, area[i][j]);
            assert forall|k: int| 0 <= k < screen@.cells.len() implies screen@.cells[k]
                == old(screen)@.overlay(0, flat(*area).take(offset + 1)).cells[k] by {
                if k != offset {
                    assert(screen@.cells[k] == before.cells[k]);
                }
            }
            assert(screen@.cells =~= old(screen)@.overlay(0, flat(*area).take(offset + 1)).cells);
            j += 1;
        }
        i += 1;
    }
    assert(flat(*area).take(BUF_SIZE as int) =~= flat(*area));
}

/// Counts the living cells among the eight around row `rows`, column
/// `columns`.
pub fn finding_all_neighbors_of_a_cell(
    area: [[u8; 80]; 25],
    rows: isize,
    columns: isize,
) -> (count: u32)
    ensures
        count == live_neighbors(area, rows as int, columns as int),
{
    if rows < -1 || rows > 25 || columns < -1 || columns > 80 {
        return 0;
    }
    let above: u32 = live_cell(&area, rows - 1, columns - 1) + live_cell(&area, rows - 1, columns)
        + live_cell(&area, rows - 1, columns + 1);
    let beside: u32 = live_cell(&area, rows, columns - 1) + live_cell(&area, rows, columns + 1);
    let below: u32 = live_cell(&area, rows + 1, columns - 1) + live_cell(&area, rows + 1, columns)
        + live_cell(&area, rows + 1, columns + 1);
    above + beside + below
}

/// The generation that follows `area`.
pub fn next_generation(area: [[u8; 80]; 25]) -> (next: [[u8; 80]; 25])
    ensures
        forall|i: int, j: int|
            0 <= i < BUF_HEIGHT && 0 <= j < BUF_WIDTH ==> #[trigger] next[i][j] == next_cell(
                area,
                i,
                j,
            ),
{
    let mut next: [[u8; 80]; 25] = [[0u8; 80]; 25];
    let mut i: usize = 0;
    while i < 25
        invariant
            i <= 25,
            forall|r: int, c: int|
                0 <= r < i && 0 <= c < 80 ==> #[trigger] next[r][c] == next_cell(area, r, c),
        decreases 25 - i,
    {
        let mut j: usize = 0;
        while j < 80
            invariant
                i < 25,
                j <= 80,
                forall|r: int, c: int|
                    0 <= r < i && 0 <= c < 80 ==> #[trigger] next[r][c] == next_cell(area, r, c),
                forall|c: int|
                    0 <= c < j ==> #[trigger] next[i as int][c] == next_cell(area, i as int, c),
            decreases 80 - j,
        {
            let count_of_neighbors: u32 = finding_all_neighbors_of_a_cell(
                area,
                i as isize,
                j as isize,
            );
            if area[i][j] == LIVE_CELL && (count_of_neighbors == 3 || count_of_neighbors == 2) {
                next[i][j] = LIVE_CELL;
            } else if area[i][j] == DEAD_CELL && count_of_neighbors == 3 {
                next[i][j] = LIVE_CELL;
            } else {
                next[i][j] = DEAD_CELL;
            }
            j += 1;
        }
        i += 1;
    }
    next
}

/// Takes the automaton one generation on and shows it: the generation that
/// follows `current_gen`, or the first one where there is none yet. Whoever
/// runs the automaton calls this once for each generation and waits in
/// between.
pub fn game_of_life(
    screen: &mut Screen,
    current_gen: Option<[[u8; 80]; 25]>,
) -> (shown: [[u8; 80]; 25])
    ensures
        forall|i: int, j: int|
            0 <= i < BUF_HEIGHT && 0 <= j < BUF_WIDTH ==> #[trigger] shown[i][j] == following_cell(
                current_gen,
                i,
                j,
            ),
        final(screen)@ == old(screen)@.overlay(0, flat(shown)),
{
    let shown = match current_gen {
        None => first_generation(),
        Some(area) => next_generation(area),
    };
    output_to_the_screen(&shown, screen);
    shown
}

} // verus!
