use game_of_life::universe::{next_cell_state, Universe};

/// The buffer positions of the live cells, in rising order.
fn live_positions(universe: &Universe) -> Vec<usize> {
    universe.get_cells().ones().collect()
}

/// The live cells as `(row, column)` pairs, in row-major order.
fn live_cells(universe: &Universe) -> Vec<(u32, u32)> {
    let width = universe.width() as usize;
    live_positions(universe)
        .into_iter()
        .map(|i| ((i / width) as u32, (i % width) as u32))
        .collect()
}

/// One generation computed the slow way: every neighbour count is taken from
/// a copy of the old cells, with signed offsets and a true modulo.
fn reference_step(width: i64, height: i64, cells: &[bool]) -> Vec<bool> {
    let mut next = vec![false; cells.len()];
    for row in 0..height {
        for col in 0..width {
            let mut count = 0;
            for dr in [-1i64, 0, 1] {
                for dc in [-1i64, 0, 1] {
                    if dr == 0 && dc == 0 {
                        continue;
                    }
                    let r = (row + dr).rem_euclid(height);
                    let c = (col + dc).rem_euclid(width);
                    if cells[(r * width + c) as usize] {
                        count += 1;
                    }
                }
            }
            let here = cells[(row * width + col) as usize];
            next[(row * width + col) as usize] = count == 3 || (here && count == 2);
        }
    }
    next
}

fn states(universe: &Universe) -> Vec<bool> {
    let cells = universe.get_cells();
    (0..cells.len()).map(|i| cells.contains(i)).collect()
}

#[test]
fn test_display() {
    let universe = Universe::new_with_spaceship(16, 16);
    println!("{}", universe.render());
}

#[test]
fn spaceship_text_has_one_line_per_row() {
    let universe = Universe::new_with_spaceship(16, 16);
    let text = universe.render();
    let lines: Vec<&str> = text.lines().collect();
    assert_eq!(lines.len(), 16);
    for line in &lines {
        assert_eq!(line.chars().count(), 16);
    }
    assert!(text.ends_with('\n'));
    assert_eq!(text.chars().filter(|c| *c == '\u{25fc}').count(), 5);
    assert_eq!(text.chars().filter(|c| *c == '\u{25fb}').count(), 16 * 16 - 5);
}

#[test]
fn render_small_grid_exactly() {
    let mut universe = Universe::empty(3, 2);
    universe.set_cells(&[(0, 1), (1, 2)]);
    assert_eq!(universe.render(), "◻◼◻\n◻◻◼\n");
}

#[test]
fn render_of_grid_without_cells() {
    assert_eq!(Universe::empty(0, 0).render(), "");
    assert_eq!(Universe::empty(3, 0).render(), "");
    assert_eq!(Universe::empty(0, 2).render(), "\n\n");
}

#[test]
fn empty_has_only_dead_cells() {
    let universe = Universe::empty(7, 5);
    assert_eq!(universe.width(), 7);
    assert_eq!(universe.height(), 5);
    assert_eq!(universe.get_cells().len(), 35);
    assert!(live_positions(&universe).is_empty());
}

#[test]
fn buffer_has_one_bit_per_cell_after_every_operation() {
    let mut universe = Universe::new_with_spaceship(6, 4);
    assert_eq!(universe.get_cells().len(), 24);
    universe.tick();
    assert_eq!(universe.get_cells().len(), 24);
    universe.set_cells(&[(0, 0), (3, 5)]);
    assert_eq!(universe.get_cells().len(), 24);
    universe.set_width(9);
    assert_eq!(universe.get_cells().len(), 36);
    universe.set_height(2);
    assert_eq!(universe.get_cells().len(), 18);
    universe.set_width(3);
    assert_eq!(universe.get_cells().len(), 6);
    universe.new_glider_at(0, 0);
    assert_eq!(universe.get_cells().len(), 6);
    assert_eq!(Universe::hardcoded_64_by_64().get_cells().len(), 4096);
    assert_eq!(Universe::new(2, 3, &[true; 6]).get_cells().len(), 6);
}

#[test]
fn get_index_is_row_major() {
    let universe = Universe::empty(7, 5);
    assert_eq!(universe.get_index(0, 0), 0);
    assert_eq!(universe.get_index(0, 6), 6);
    assert_eq!(universe.get_index(1, 0), 7);
    assert_eq!(universe.get_index(4, 6), 34);
    assert_eq!(universe.get_index(3, 2), 23);
}

#[test]
fn cell_state_reads_the_cell() {
    let mut universe = Universe::empty(4, 3);
    universe.set_cells(&[(2, 1)]);
    for row in 0..3 {
        for col in 0..4 {
            assert_eq!(universe.cell_state(row, col), (row, col) == (2, 1));
        }
    }
}

#[test]
fn neighbors_wrap_on_three_by_three() {
    let mut universe = Universe::empty(3, 3);
    universe.set_cells(&[(0, 0)]);
    // On a 3x3 torus every other cell is a neighbour of every cell.
    assert_eq!(universe.live_neighbor_count(2, 2), 1);
    assert_eq!(universe.live_neighbor_count(1, 1), 1);
    assert_eq!(universe.live_neighbor_count(0, 0), 0);
}

#[test]
fn neighbors_wrap_across_each_edge() {
    let mut universe = Universe::empty(5, 5);
    universe.set_cells(&[(0, 0)]);
    assert_eq!(universe.live_neighbor_count(4, 4), 1);
    assert_eq!(universe.live_neighbor_count(0, 4), 1);
    assert_eq!(universe.live_neighbor_count(4, 0), 1);
    assert_eq!(universe.live_neighbor_count(1, 1), 1);
    assert_eq!(universe.live_neighbor_count(2, 2), 0);
    assert_eq!(universe.live_neighbor_count(0, 0), 0);
    assert_eq!(universe.live_neighbor_count(0, 2), 0);
    assert_eq!(universe.live_neighbor_count(3, 4), 0);
}

#[test]
fn neighbor_count_wraps_the_coordinates_it_is_given() {
    let mut universe = Universe::empty(5, 4);
    universe.set_cells(&[(0, 0), (1, 1), (3, 4)]);
    for row in 0..4u32 {
        for col in 0..5u32 {
            let here = universe.live_neighbor_count(row, col);
            assert_eq!(universe.live_neighbor_count(row + 4, col + 10), here);
        }
    }
    assert_eq!(universe.live_neighbor_count(u32::MAX, u32::MAX), universe.live_neighbor_count(3, 0));
}

#[test]
fn neighbor_count_of_a_full_grid_is_eight() {
    let universe = Universe::new(4, 4, &[true; 16]);
    for row in 0..4 {
        for col in 0..4 {
            assert_eq!(universe.live_neighbor_count(row, col), 8);
        }
    }
}

#[test]
fn neighbor_count_on_a_single_row() {
    // With one row the offset one step back along the rows is zero, so both
    // places with a zero row offset skip the column offset zero.
    let universe = Universe::new(4, 1, &[true; 4]);
    assert_eq!(universe.live_neighbor_count(0, 1), 7);
    let single = Universe::new(1, 1, &[true]);
    assert_eq!(single.live_neighbor_count(0, 0), 5);
}

#[test]
fn rule_table() {
    for n in 0..=8u8 {
        assert_eq!(next_cell_state(true, n), n == 2 || n == 3);
        assert_eq!(next_cell_state(false, n), n == 3);
    }
    assert!(!next_cell_state(true, 1));
    assert!(next_cell_state(true, 2));
    assert!(next_cell_state(true, 3));
    assert!(!next_cell_state(true, 4));
    assert!(!next_cell_state(false, 2));
    assert!(next_cell_state(false, 3));
}

#[test]
fn tick_reads_only_the_old_generation() {
    // A blinker: updating in place would keep (2, 1) alive, since (1, 2)
    // comes alive before it is looked at.
    let mut universe = Universe::empty(5, 5);
    universe.set_cells(&[(2, 1), (2, 2), (2, 3)]);
    universe.tick();
    assert_eq!(live_cells(&universe), vec![(1, 2), (2, 2), (3, 2)]);
    universe.tick();
    assert_eq!(live_cells(&universe), vec![(2, 1), (2, 2), (2, 3)]);
}

#[test]
fn tick_on_alternating_row() {
    let mut universe = Universe::empty(6, 4);
    universe.set_cells(&[(1, 0), (1, 2), (1, 4)]);
    let expected = reference_step(6, 4, &states(&universe));
    universe.tick();
    assert_eq!(states(&universe), expected);
    assert!(live_positions(&universe).is_empty());
}

#[test]
fn tick_matches_reference_on_fixed_pattern() {
    let mut universe = Universe::hardcoded_64_by_64();
    let mut expected = states(&universe);
    for _ in 0..5 {
        expected = reference_step(64, 64, &expected);
        universe.tick();
        assert_eq!(states(&universe), expected);
    }
}

#[test]
fn tick_matches_reference_on_uneven_grid() {
    let draws: Vec<bool> = (0..7 * 11).map(|i| (i * i + 3 * i) % 5 < 2).collect();
    let mut universe = Universe::new(7, 11, &draws);
    let mut expected = draws.clone();
    for _ in 0..8 {
        expected = reference_step(7, 11, &expected);
        universe.tick();
        assert_eq!(states(&universe), expected);
    }
}

#[test]
fn tick_of_grid_without_cells_does_nothing() {
    let mut universe = Universe::empty(0, 4);
    universe.tick();
    assert_eq!(universe.width(), 0);
    assert_eq!(universe.height(), 4);
    assert_eq!(universe.get_cells().len(), 0);
}

#[test]
fn block_is_a_still_life() {
    let mut universe = Universe::empty(6, 6);
    universe.set_cells(&[(2, 2), (2, 3), (3, 2), (3, 3)]);
    universe.tick();
    assert_eq!(live_cells(&universe), vec![(2, 2), (2, 3), (3, 2), (3, 3)]);
}

#[test]
fn glider_has_five_cells_in_fixed_places() {
    let mut universe = Universe::empty(7, 6);
    universe.new_glider_at(3, 2);
    assert_eq!(live_cells(&universe), vec![(2, 2), (2, 3), (3, 1), (3, 3), (4, 3)]);
    let mut wide = Universe::empty(40, 3);
    wide.new_glider_at(1, 20);
    assert_eq!(live_cells(&wide), vec![(0, 20), (0, 21), (1, 19), (1, 21), (2, 21)]);
}

#[test]
fn glider_wraps_at_the_corner() {
    let mut universe = Universe::empty(5, 5);
    universe.new_glider_at(0, 0);
    assert_eq!(live_cells(&universe), vec![(0, 1), (0, 4), (1, 1), (4, 0), (4, 1)]);
    let mut other = Universe::empty(5, 5);
    other.new_glider_at(4, 4);
    assert_eq!(live_cells(&other), vec![(0, 0), (3, 0), (3, 4), (4, 0), (4, 3)]);
}

#[test]
fn glider_overwrites_what_was_there() {
    let mut universe = Universe::new(5, 5, &[true; 25]);
    universe.new_glider_at(2, 2);
    let dead: Vec<(u32, u32)> = vec![(1, 1), (2, 2), (3, 1), (3, 2)];
    for row in 0..5 {
        for col in 0..5 {
            assert_eq!(universe.cell_state(row, col), !dead.contains(&(row, col)));
        }
    }
}

#[test]
fn glider_on_narrow_grid_keeps_the_last_write() {
    // Two columns: the offsets one step back and one step forward name the
    // same column, and the later write stands there.
    let mut universe = Universe::empty(2, 3);
    universe.new_glider_at(1, 0);
    assert_eq!(live_cells(&universe), vec![(0, 0), (0, 1), (1, 1), (2, 1)]);
}

#[test]
fn spaceship_is_seeded_at_half_width_and_half_height() {
    let universe = Universe::new_with_spaceship(8, 12);
    // The centre is row 8 / 2, column 12 / 2, and column 6 + 1 wraps to 7.
    assert_eq!(live_cells(&universe), vec![(3, 6), (3, 7), (4, 5), (4, 7), (5, 7)]);
    let square = Universe::new_with_spaceship(16, 16);
    assert_eq!(live_cells(&square), vec![(7, 8), (7, 9), (8, 7), (8, 9), (9, 9)]);
}

#[test]
fn spaceship_centre_wraps_on_a_wide_grid() {
    let universe = Universe::new_with_spaceship(12, 4);
    // Row 12 / 2 = 6 wraps to row 2, column 4 / 2 = 2.
    assert_eq!(live_cells(&universe), vec![(1, 2), (1, 3), (2, 1), (2, 3), (3, 3)]);
}

#[test]
fn resize_resets_every_cell() {
    let mut universe = Universe::new_with_spaceship(8, 8);
    universe.set_width(8);
    assert_eq!(universe.width(), 8);
    assert_eq!(universe.height(), 8);
    assert_eq!(universe.get_cells().len(), 64);
    assert!(live_positions(&universe).is_empty());

    universe.new_glider_at(4, 4);
    universe.set_height(8);
    assert!(live_positions(&universe).is_empty());

    universe.new_glider_at(4, 4);
    universe.set_width(20);
    assert_eq!(universe.width(), 20);
    assert_eq!(universe.height(), 8);
    assert_eq!(universe.get_cells().len(), 160);
    assert!(live_positions(&universe).is_empty());

    universe.new_glider_at(4, 4);
    universe.set_height(3);
    assert_eq!(universe.width(), 20);
    assert_eq!(universe.height(), 3);
    assert_eq!(universe.get_cells().len(), 60);
    assert!(live_positions(&universe).is_empty());

    universe.set_width(0);
    assert_eq!(universe.get_cells().len(), 0);
}

#[test]
fn glider_on_three_by_three_dies_out() {
    let mut universe = Universe::empty(3, 3);
    universe.new_glider_at(1, 1);
    assert_eq!(live_cells(&universe), vec![(0, 1), (0, 2), (1, 0), (1, 2), (2, 2)]);
    // Every live cell has the four other live cells as neighbours, and every
    // dead cell has five live neighbours.
    for row in 0..3 {
        for col in 0..3 {
            let expected = if universe.cell_state(row, col) { 4 } else { 5 };
            assert_eq!(universe.live_neighbor_count(row, col), expected);
        }
    }
    universe.tick();
    assert_eq!(states(&universe), vec![false; 9]);
    universe.tick();
    assert_eq!(states(&universe), vec![false; 9]);
    universe.tick();
    assert_eq!(states(&universe), vec![false; 9]);
}

#[test]
fn glider_travels_one_cell_in_four_generations() {
    let mut universe = Universe::empty(10, 10);
    universe.new_glider_at(4, 4);
    let start = live_cells(&universe);
    let mut expected = states(&universe);
    for _ in 0..4 {
        expected = reference_step(10, 10, &expected);
        universe.tick();
    }
    assert_eq!(states(&universe), expected);
    let moved = live_cells(&universe);
    assert_eq!(moved.len(), 5);
    assert_ne!(moved, start);
    let shifted: Vec<(u32, u32)> = start.iter().map(|(r, c)| (r - 1, c + 1)).collect();
    assert_eq!(moved, shifted);
}

#[test]
fn fixed_pattern_follows_its_formula() {
    let universe = Universe::hardcoded_64_by_64();
    assert_eq!(universe.width(), 64);
    assert_eq!(universe.height(), 64);
    let cells = universe.get_cells();
    for i in 0..4096usize {
        assert_eq!(cells.contains(i), i % 2 == 0 || i % 7 == 0);
    }
    assert_eq!(cells.count_ones(..), 2341);
    assert!(universe.cell_state(0, 7));
    assert!(!universe.cell_state(0, 3));
    assert!(universe.cell_state(1, 0));
    assert!(!universe.cell_state(1, 1));
}

#[test]
fn new_takes_the_states_it_is_given() {
    let draws = vec![true, false, false, true, true, false];
    let universe = Universe::new(3, 2, &draws);
    assert_eq!(universe.width(), 3);
    assert_eq!(universe.height(), 2);
    assert_eq!(states(&universe), draws);
    assert_eq!(live_cells(&universe), vec![(0, 0), (1, 0), (1, 1)]);
    let none = Universe::new(0, 0, &[]);
    assert_eq!(none.get_cells().len(), 0);
}

#[test]
fn set_cells_adds_and_keeps() {
    let mut universe = Universe::empty(4, 4);
    universe.set_cells(&[(1, 1), (3, 0)]);
    assert_eq!(live_cells(&universe), vec![(1, 1), (3, 0)]);
    universe.set_cells(&[(0, 3), (1, 1), (0, 3)]);
    assert_eq!(live_cells(&universe), vec![(0, 3), (1, 1), (3, 0)]);
    universe.set_cells(&[]);
    assert_eq!(live_cells(&universe), vec![(0, 3), (1, 1), (3, 0)]);
}

#[test]
fn cells_are_packed_lowest_bit_first() {
    let mut universe = Universe::empty(3, 3);
    universe.new_glider_at(1, 1);
    assert_eq!(universe.cells(), &[0b1_0010_1110u32][..]);

    let wide = Universe::hardcoded_64_by_64();
    let blocks = wide.cells();
    assert_eq!(blocks.len(), 128);
    for i in 0..4096usize {
        let bit = (blocks[i / 32] >> (i % 32)) & 1 == 1;
        assert_eq!(bit, i % 2 == 0 || i % 7 == 0);
    }

    let mut odd = Universe::empty(11, 3);
    odd.set_cells(&[(2, 10)]);
    assert_eq!(odd.cells(), &[0u32, 1][..]);
    assert_eq!(Universe::empty(0, 0).cells().len(), 0);
}

#[test]
fn get_cells_shows_the_buffer() {
    let mut universe = Universe::empty(4, 2);
    universe.set_cells(&[(1, 3)]);
    let cells = universe.get_cells();
    assert_eq!(cells.len(), 8);
    assert!(cells.contains(7));
    assert_eq!(cells.count_ones(..), 1);
}
