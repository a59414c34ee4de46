use unios::game_of_life::{
    finding_all_neighbors_of_a_cell, first_generation, game_of_life, next_generation,
    output_to_the_screen, DEAD_CELL, LIVE_CELL,
};
use unios::vga_buf::{Alignment, AsciiChar, Color, Screen};

fn empty() -> [[u8; 80]; 25] {
    [[b' '; 80]; 25]
}

#[test]
fn cells_are_letters_and_spaces() {
    assert_eq!(LIVE_CELL, b'x');
    assert_eq!(DEAD_CELL, b' ');
}

#[test]
fn first_generation_is_the_glider_gun() {
    let area = first_generation();
    let rows: [&[usize]; 9] = [
        &[36],
        &[34, 36],
        &[24, 25, 32, 33, 46, 47],
        &[23, 27, 32, 33, 46, 47],
        &[12, 13, 22, 28, 32, 33],
        &[12, 13, 22, 26, 28, 29, 34, 36],
        &[22, 28, 36],
        &[23, 27],
        &[24, 25],
    ];
    let mut live = 0;
    for i in 0..25 {
        for j in 0..80 {
            let expected = i >= 3 && i <= 11 && rows[i - 3].contains(&j);
            assert_eq!(area[i][j] == b'x', expected, "row {} column {}", i, j);
            assert!(area[i][j] == b'x' || area[i][j] == b' ');
            if area[i][j] == b'x' {
                live += 1;
            }
        }
    }
    assert_eq!(live, 36);
}

#[test]
fn neighbours_are_counted_around_the_cell() {
    let mut area = empty();
    area[4][4] = b'x';
    area[4][5] = b'x';
    area[4][6] = b'x';
    area[5][4] = b'x';
    area[5][5] = b'x';
    area[5][6] = b'x';
    area[6][4] = b'x';
    area[6][5] = b'x';
    area[6][6] = b'x';
    assert_eq!(finding_all_neighbors_of_a_cell(area, 5, 5), 8);
    assert_eq!(finding_all_neighbors_of_a_cell(area, 4, 4), 3);
    assert_eq!(finding_all_neighbors_of_a_cell(area, 3, 5), 3);
    assert_eq!(finding_all_neighbors_of_a_cell(area, 3, 3), 1);
    assert_eq!(finding_all_neighbors_of_a_cell(area, 10, 10), 0);
}

#[test]
fn only_the_letter_counts_as_alive() {
    let mut area = empty();
    area[1][1] = b'X';
    area[1][2] = b'o';
    area[1][3] = 0;
    assert_eq!(finding_all_neighbors_of_a_cell(area, 2, 2), 0);
    area[3][3] = b'x';
    assert_eq!(finding_all_neighbors_of_a_cell(area, 2, 2), 1);
}

#[test]
fn cells_beyond_the_edge_are_dead() {
    let area = [[b'x'; 80]; 25];
    assert_eq!(finding_all_neighbors_of_a_cell(area, 0, 0), 3);
    assert_eq!(finding_all_neighbors_of_a_cell(area, 24, 79), 3);
    assert_eq!(finding_all_neighbors_of_a_cell(area, 0, 40), 5);
    assert_eq!(finding_all_neighbors_of_a_cell(area, 12, 79), 5);
    assert_eq!(finding_all_neighbors_of_a_cell(area, -1, -1), 1);
    assert_eq!(finding_all_neighbors_of_a_cell(area, 25, 80), 1);
    assert_eq!(finding_all_neighbors_of_a_cell(area, -1, 5), 3);
    assert_eq!(finding_all_neighbors_of_a_cell(area, -2, 5), 0);
    assert_eq!(finding_all_neighbors_of_a_cell(area, 26, 5), 0);
    assert_eq!(finding_all_neighbors_of_a_cell(area, 5, 81), 0);
    assert_eq!(finding_all_neighbors_of_a_cell(area, isize::MIN, isize::MIN), 0);
    assert_eq!(finding_all_neighbors_of_a_cell(area, isize::MAX, isize::MAX), 0);
}

#[test]
fn blinker_turns() {
    let mut area = empty();
    area[10][9] = b'x';
    area[10][10] = b'x';
    area[10][11] = b'x';
    let next = next_generation(area);
    let mut expected = empty();
    expected[9][10] = b'x';
    expected[10][10] = b'x';
    expected[11][10] = b'x';
    assert_eq!(next, expected);
    assert_eq!(next_generation(next), area);
}

#[test]
fn block_stays() {
    let mut area = empty();
    area[0][0] = b'x';
    area[0][1] = b'x';
    area[1][0] = b'x';
    area[1][1] = b'x';
    assert_eq!(next_generation(area), area);
}

#[test]
fn lonely_and_crowded_cells_die() {
    let mut area = empty();
    area[5][5] = b'x';
    assert_eq!(next_generation(area), empty());
    let mut crowded = empty();
    crowded[5][5] = b'x';
    crowded[4][5] = b'x';
    crowded[6][5] = b'x';
    crowded[5][4] = b'x';
    crowded[5][6] = b'x';
    let next = next_generation(crowded);
    assert_eq!(next[5][5], b' ');
    assert_eq!(next[4][4], b'x');
}

#[test]
fn cells_that_are_neither_alive_nor_dead_become_dead() {
    let mut area = empty();
    area[5][5] = b'o';
    area[4][4] = b'x';
    area[4][5] = b'x';
    area[4][6] = b'x';
    let next = next_generation(area);
    assert_eq!(next[5][5], b' ');
    assert_eq!(next[3][5], b'x');
    let zeroes = [[0u8; 80]; 25];
    assert_eq!(next_generation(zeroes), empty());
}

#[test]
fn second_generation_of_the_gun() {
    let next = next_generation(first_generation());
    assert_eq!(next[7][12], b'x');
    assert_eq!(next[7][13], b'x');
    assert_eq!(next[8][12], b'x');
    assert_eq!(next[8][13], b'x');
    assert_eq!(next[3][36], b' ');
    assert_eq!(next[4][35], b'x');
    assert_eq!(next[0][0], b' ');
}

#[test]
fn grid_is_shown_cell_by_cell() {
    let mut screen = Screen::new(Color::Silver, Color::Cyan, Alignment::Center);
    let area = first_generation();
    output_to_the_screen(&area, &mut screen);
    assert_eq!(
        screen.read_char(3 * 80 + 36),
        AsciiChar { char_byte: b'x', color_byte: 0x83 }
    );
    assert_eq!(screen.read_char(0), AsciiChar { char_byte: b' ', color_byte: 0x83 });
    let chars = screen.get_buffer();
    for i in 0..25 {
        for j in 0..80 {
            assert_eq!(chars[i * 80 + j], area[i][j]);
        }
    }
    assert_eq!((screen.row(), screen.column()), (0, 0));
}

#[test]
fn automaton_runs_generation_by_generation() {
    let mut screen = Screen::new(Color::Silver, Color::Cyan, Alignment::Center);
    let first = game_of_life(&mut screen, None);
    assert_eq!(first, first_generation());
    assert_eq!(screen.get_buffer().to_vec(), first.concat());
    let second = game_of_life(&mut screen, Some(first));
    assert_eq!(second, next_generation(first));
    assert_eq!(screen.get_buffer().to_vec(), second.concat());
    assert_eq!(screen.read_char(4 * 80 + 35), AsciiChar { char_byte: b'x', color_byte: 0x83 });
    let mut blinker = [[b' '; 80]; 25];
    blinker[1][0] = b'x';
    blinker[1][1] = b'x';
    blinker[1][2] = b'x';
    let turned = game_of_life(&mut screen, Some(blinker));
    assert_eq!(turned[0][1], b'x');
    assert_eq!(turned[1][1], b'x');
    assert_eq!(turned[2][1], b'x');
    assert_eq!(turned[1][0], b' ');
    assert_eq!(screen.read_char(1).char_byte, b'x');
    assert_eq!(screen.read_char(80).char_byte, b' ');
}
