use game_of_life::cell::Cell;
use game_of_life::universe::Universe;

fn alive_positions(u: &Universe) -> Vec<(u32, u32)> {
    let width = u.width();
    let cells = u.get_cells();
    let mut out = Vec::new();
    for (i, cell) in cells.iter().enumerate() {
        if *cell == Cell::Alive {
            out.push((i as u32 / width, i as u32 % width));
        }
    }
    out
}

fn count_alive(u: &Universe) -> usize {
    u.get_cells().iter().filter(|c| **c == Cell::Alive).count()
}

#[test]
fn new_has_default_dimensions_and_pattern() {
    let u = Universe::new();
    assert_eq!(u.width(), 64);
    assert_eq!(u.height(), 64);
    let cells = u.get_cells();
    assert_eq!(cells.len(), 64 * 64);
    for (i, cell) in cells.iter().enumerate() {
        let expected = if i % 2 == 0 || i % 7 == 0 { Cell::Alive } else { Cell::Dead };
        assert_eq!(*cell, expected, "wrong cell at flat index {}", i);
    }
}

#[test]
fn new_empty_is_all_dead() {
    let u = Universe::new_empty();
    assert_eq!(u.width(), 64);
    assert_eq!(u.height(), 64);
    assert_eq!(u.get_cells().len(), 64 * 64);
    assert_eq!(count_alive(&u), 0);
}

#[test]
fn new_lone_glider_has_exactly_the_glider() {
    let u = Universe::new_lone_glider();
    let mut alive = alive_positions(&u);
    alive.sort();
    let mut expected = vec![(1, 3), (2, 3), (3, 3), (2, 1), (3, 2)];
    expected.sort();
    assert_eq!(alive, expected);
}

#[test]
fn buffer_length_tracks_dimensions_after_mutations() {
    let mut u = Universe::new();
    u.tick();
    assert_eq!(u.get_cells().len(), (u.width() * u.height()) as usize);
    u.toggle_cell(3, 4);
    assert_eq!(u.get_cells().len(), (u.width() * u.height()) as usize);
    u.set_rand();
    assert_eq!(u.get_cells().len(), (u.width() * u.height()) as usize);
    u.set_width(17);
    assert_eq!(u.get_cells().len(), (u.width() * u.height()) as usize);
    u.set_height(5);
    assert_eq!(u.get_cells().len(), (u.width() * u.height()) as usize);
    u.set_empty();
    assert_eq!(u.get_cells().len(), (u.width() * u.height()) as usize);
}

#[test]
fn isolated_cell_dies_of_underpopulation() {
    let mut u = Universe::new_empty();
    u.set_width(3);
    u.set_height(3);
    u.toggle_cell(1, 1);
    assert_eq!(count_alive(&u), 1);
    u.tick();
    assert_eq!(count_alive(&u), 0);
}

#[test]
fn block_is_a_still_life() {
    let mut u = Universe::new_empty();
    u.set_cells(&[(1, 1), (1, 2), (2, 1), (2, 2)]);
    let before = u.get_cells().to_vec();
    u.tick();
    assert_eq!(u.get_cells(), before.as_slice());
    u.tick();
    assert_eq!(u.get_cells(), before.as_slice());

    // a block touching the grid border is a still life too: its wrapped
    // neighbors on the far side are all dead
    let mut v = Universe::new_empty();
    v.set_cells(&[(0, 0), (0, 1), (1, 0), (1, 1)]);
    let before = v.get_cells().to_vec();
    v.tick();
    assert_eq!(v.get_cells(), before.as_slice());
}

#[test]
fn glider_translates_by_one_one_after_four_ticks() {
    let mut u = Universe::new_lone_glider();
    let start = alive_positions(&u);
    for _ in 0..4 {
        u.tick();
    }
    let mut moved = alive_positions(&u);
    moved.sort();
    let mut expected: Vec<(u32, u32)> = start.iter().map(|&(r, c)| (r + 1, c + 1)).collect();
    expected.sort();
    assert_eq!(moved, expected);
}

#[test]
fn toggle_twice_restores_the_grid() {
    let mut u = Universe::new();
    let before = u.get_cells().to_vec();
    u.toggle_cell(5, 7);
    assert_eq!(u.get_cells()[5 * 64 + 7], Cell::Alive, "(5,7) starts dead in the default pattern");
    let mut changed = 0;
    for (a, b) in u.get_cells().iter().zip(before.iter()) {
        if a != b {
            changed += 1;
        }
    }
    assert_eq!(changed, 1, "exactly one cell differs after one toggle");
    u.toggle_cell(5, 7);
    assert_eq!(u.get_cells(), before.as_slice());
}

#[test]
fn set_width_resets_all_cells() {
    let mut u = Universe::new();
    assert!(count_alive(&u) > 0);
    u.set_width(10);
    assert_eq!(u.width(), 10);
    assert_eq!(u.height(), 64);
    assert_eq!(u.get_cells().len(), 640);
    assert_eq!(count_alive(&u), 0);
}

#[test]
fn set_height_resets_all_cells() {
    let mut u = Universe::new();
    assert!(count_alive(&u) > 0);
    u.set_height(5);
    assert_eq!(u.width(), 64);
    assert_eq!(u.height(), 5);
    assert_eq!(u.get_cells().len(), 320);
    assert_eq!(count_alive(&u), 0);
}

#[test]
fn randomize_produces_a_mix_of_both_states() {
    let u = Universe::new_rand();
    let alive = count_alive(&u);
    assert!(alive > 0, "a 64x64 random grid with no live cell is overwhelmingly unlikely");
    assert!(alive < 64 * 64, "a 64x64 random grid with no dead cell is overwhelmingly unlikely");

    let mut v = Universe::new_empty();
    v.set_rand();
    let alive = count_alive(&v);
    assert!(alive > 0);
    assert!(alive < 64 * 64);
}

#[test]
fn corners_wrap_around() {
    let mut u = Universe::new_empty();
    u.set_width(5);
    u.set_height(5);
    // three live cells that only meet across the wrapped edges
    u.set_cells(&[(0, 0), (0, 4), (4, 0)]);
    u.tick();
    // each of the three sees the other two as wrapped neighbors and
    // survives; (4,4) sees all three and is born
    let mut alive = alive_positions(&u);
    alive.sort();
    assert_eq!(alive, vec![(0, 0), (0, 4), (4, 0), (4, 4)]);
}

#[test]
fn set_cells_leaves_other_cells_alone() {
    let mut u = Universe::new();
    let before = u.get_cells().to_vec();
    u.set_cells(&[(10, 11), (0, 0)]);
    let after = u.get_cells();
    for i in 0..before.len() {
        if i == 10 * 64 + 11 || i == 0 {
            assert_eq!(after[i], Cell::Alive);
        } else {
            assert_eq!(after[i], before[i]);
        }
    }
}

#[test]
fn cells_and_get_cells_agree() {
    let u = Universe::new();
    assert_eq!(u.cells(), u.get_cells());
}

#[test]
fn render_draws_glyph_rows() {
    let mut u = Universe::new_empty();
    u.set_width(2);
    u.set_height(2);
    u.toggle_cell(0, 0);
    assert_eq!(u.render(), "◼◻\n◻◻\n");
}

#[test]
fn render_of_empty_width_grid_is_newlines_only() {
    let mut u = Universe::new_empty();
    u.set_width(0);
    u.set_height(3);
    assert_eq!(u.render(), "\n\n\n");
    u.tick();
    assert_eq!(u.get_cells().len(), 0);
}

#[test]
fn degenerate_two_by_two_grid_overcounts_neighbors() {
    // on a 2-by-2 torus the wrapped offsets coincide, so every cell counts
    // 8 live neighbors and a fully alive grid dies out; the doubled
    // counting on dimensions of 2 or less is documented behavior
    let mut u = Universe::new_empty();
    u.set_width(2);
    u.set_height(2);
    u.set_cells(&[(0, 0), (0, 1), (1, 0), (1, 1)]);
    u.tick();
    assert_eq!(count_alive(&u), 0);
}

#[test]
fn single_row_grid_skips_zero_valued_offsets() {
    // on a 1-row grid the wrapped row offset height-1 is 0, so the offset
    // pairs equal to (0,0) by value are skipped: a lone live cell counts
    // itself only once (through the offset pair (1,0)), sees 1 live
    // neighbor and dies, while each of the other two cells sees 3 and is
    // born
    let mut u = Universe::new_empty();
    u.set_width(3);
    u.set_height(1);
    u.toggle_cell(0, 0);
    u.tick();
    assert_eq!(u.get_cells(), &[Cell::Dead, Cell::Alive, Cell::Alive]);
}

#[test]
fn single_column_grid_skips_zero_valued_offsets() {
    // the same degenerate skipping with the roles of the dimensions swapped
    let mut u = Universe::new_empty();
    u.set_width(1);
    u.set_height(3);
    u.toggle_cell(0, 0);
    u.tick();
    assert_eq!(u.get_cells(), &[Cell::Dead, Cell::Alive, Cell::Alive]);
}

#[test]
fn one_by_one_live_cell_counts_itself_and_dies() {
    let mut u = Universe::new_empty();
    u.set_width(1);
    u.set_height(1);
    u.toggle_cell(0, 0);
    u.tick();
    assert_eq!(count_alive(&u), 0);
}

#[test]
fn cell_rand_returns_one_of_the_two_states() {
    for _ in 0..32 {
        let c = Cell::rand();
        assert!(c == Cell::Alive || c == Cell::Dead);
    }
}
