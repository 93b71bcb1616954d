use game_of_life::random::cell_for_draw;
use game_of_life::{Cell, Pattern, Universe};

const D: Cell = Cell::Dead;
const A: Cell = Cell::Alive;

fn blank(width: u32, height: u32) -> Universe {
    let mut u = Universe::new();
    u.set_width(width);
    u.set_height(height);
    u
}

fn with_cells(width: u32, height: u32, alive: &[(u32, u32)]) -> Universe {
    let mut u = blank(width, height);
    u.set_cells(alive);
    u
}

fn alive_positions(u: &Universe) -> Vec<(u32, u32)> {
    let mut out = Vec::new();
    for row in 0..u.height() {
        for col in 0..u.width() {
            if u.get_cells()[u.get_index(row, col)] == A {
                out.push((row, col));
            }
        }
    }
    out
}

#[test]
fn new_is_64_by_64_and_seeded() {
    let u = Universe::new();
    assert_eq!(u.width(), 64);
    assert_eq!(u.height(), 64);
    let cells = u.get_cells();
    assert_eq!(cells.len(), 4096);
    for (i, cell) in cells.iter().enumerate() {
        let expected = if i % 2 == 0 || i % 7 == 0 { A } else { D };
        assert_eq!(*cell, expected, "cell {}", i);
    }
    assert_eq!(cells[0], A);
    assert_eq!(cells[1], D);
    assert_eq!(cells[7], A);
    assert_eq!(cells[9], D);
    assert_eq!(cells[21], A);
}

#[test]
fn buffer_length_is_width_times_height() {
    let mut u = Universe::new();
    assert_eq!(u.get_cells().len(), 64 * 64);
    u.tick();
    assert_eq!(u.get_cells().len(), 64 * 64);
    u.set_width(10);
    assert_eq!(u.get_cells().len(), 10 * 64);
    u.set_height(7);
    assert_eq!(u.get_cells().len(), 70);
    u.insert_glider(1, 1);
    u.toggle_cell(6, 9);
    u.tick();
    u.clear_all();
    assert_eq!(u.get_cells().len(), 70);
    assert_eq!(u.width(), 10);
    assert_eq!(u.height(), 7);
}

#[test]
fn resize_resets_every_cell() {
    let mut u = Universe::new();
    u.set_width(5);
    assert_eq!(u.width(), 5);
    assert_eq!(u.height(), 64);
    assert!(u.get_cells().iter().all(|c| *c == D));
    u.set_cells(&[(0, 0), (63, 4), (10, 2)]);
    u.set_height(4);
    assert_eq!(u.width(), 5);
    assert_eq!(u.height(), 4);
    assert_eq!(u.get_cells(), &[D; 20][..]);
    u.set_cells(&[(3, 4)]);
    u.set_width(5);
    assert_eq!(u.get_cells(), &[D; 20][..]);
}

#[test]
fn index_is_row_major() {
    let u = blank(7, 5);
    assert_eq!(u.get_index(0, 0), 0);
    assert_eq!(u.get_index(0, 6), 6);
    assert_eq!(u.get_index(1, 0), 7);
    assert_eq!(u.get_index(3, 4), 25);
    assert_eq!(u.get_index(4, 6), 34);
}

#[test]
fn corner_counts_its_wrapped_neighbors() {
    let (w, h) = (5u32, 4u32);
    let around = [
        (h - 1, w - 1),
        (h - 1, 0),
        (h - 1, 1),
        (0, w - 1),
        (0, 1),
        (1, w - 1),
        (1, 0),
        (1, 1),
    ];
    for pos in around.iter() {
        let u = with_cells(w, h, &[*pos]);
        assert_eq!(u.live_neighbor_count(0, 0), 1, "{:?}", pos);
    }
    let u = with_cells(w, h, &around);
    assert_eq!(u.live_neighbor_count(0, 0), 8);
    let u = with_cells(w, h, &[(0, 0)]);
    assert_eq!(u.live_neighbor_count(0, 0), 0);
    let u = with_cells(w, h, &[(2, 2), (0, 2), (2, 0), (0, 3), (2, 1)]);
    assert_eq!(u.live_neighbor_count(0, 0), 0);
}

#[test]
fn neighbor_count_wraps_its_own_coordinates() {
    let u = with_cells(5, 4, &[(0, 1), (3, 4)]);
    assert_eq!(u.live_neighbor_count(4, 5), u.live_neighbor_count(0, 0));
    assert_eq!(u.live_neighbor_count(4, 5), 2);
}

#[test]
fn neighbor_count_on_a_single_cell_grid() {
    let u = with_cells(1, 1, &[(0, 0)]);
    assert_eq!(u.live_neighbor_count(0, 0), 5);
    let u = blank(1, 1);
    assert_eq!(u.live_neighbor_count(0, 0), 0);
}

#[test]
fn neighbor_count_on_a_single_row() {
    let u = with_cells(4, 1, &[(0, 0), (0, 1), (0, 2)]);
    // the row above and the row below are the row itself
    assert_eq!(u.live_neighbor_count(0, 1), 7);
    assert_eq!(u.live_neighbor_count(0, 3), 6);
}

#[test]
fn rule_table() {
    for n in 0u8..=8 {
        let alive = if n == 2 || n == 3 { A } else { D };
        let dead = if n == 3 { A } else { D };
        assert_eq!(A.step(n), alive, "alive with {}", n);
        assert_eq!(D.step(n), dead, "dead with {}", n);
    }
}

#[test]
fn cell_toggle_value_and_symbol() {
    let mut c = D;
    c.toggle();
    assert_eq!(c, A);
    c.toggle();
    assert_eq!(c, D);
    assert_eq!(D.value(), 0);
    assert_eq!(A.value(), 1);
    assert_eq!(D.symbol(), '◻');
    assert_eq!(A.symbol(), '◼');
}

#[test]
fn tick_applies_each_rule() {
    // a lone cell dies, a cell with one neighbour dies
    let mut u = with_cells(6, 6, &[(2, 2), (2, 3)]);
    u.tick();
    assert_eq!(alive_positions(&u), vec![]);
    // an L of three: the corner survives on two, the fourth is born on three
    let mut u = with_cells(6, 6, &[(2, 2), (2, 3), (3, 2)]);
    u.tick();
    assert_eq!(alive_positions(&u), vec![(2, 2), (2, 3), (3, 2), (3, 3)]);
    // a plus: the centre has four neighbours and dies
    let mut u = with_cells(7, 7, &[(3, 3), (2, 3), (4, 3), (3, 2), (3, 4)]);
    u.tick();
    assert_eq!(
        alive_positions(&u),
        vec![(2, 2), (2, 3), (2, 4), (3, 2), (3, 4), (4, 2), (4, 3), (4, 4)]
    );
}

#[test]
fn tick_is_deterministic() {
    let mut a = Universe::new();
    let mut b = Universe::new();
    for _ in 0..5 {
        a.tick();
        b.tick();
        assert_eq!(a.get_cells(), b.get_cells());
    }
    assert_ne!(a.get_cells(), Universe::new().get_cells());
}

#[test]
fn tick_on_an_empty_grid_changes_nothing() {
    let mut u = blank(0, 5);
    u.tick();
    assert_eq!(u.width(), 0);
    assert_eq!(u.height(), 5);
    assert_eq!(u.get_cells().len(), 0);
    let mut u = blank(5, 0);
    u.tick();
    assert_eq!(u.get_cells().len(), 0);
    assert_eq!(u.render(), "");
}

#[test]
fn block_is_a_still_life() {
    let block = [(2, 3), (2, 4), (3, 3), (3, 4)];
    let mut u = with_cells(8, 6, &block);
    for _ in 0..4 {
        u.tick();
        assert_eq!(alive_positions(&u), block.to_vec());
    }
}

#[test]
fn blinker_has_period_two() {
    let line = [(2, 1), (2, 2), (2, 3)];
    let mut u = with_cells(5, 5, &line);
    let start = u.get_cells().to_vec();
    u.tick();
    assert_eq!(alive_positions(&u), vec![(1, 2), (2, 2), (3, 2)]);
    assert_ne!(u.get_cells(), &start[..]);
    u.tick();
    assert_eq!(u.get_cells(), &start[..]);
    assert_eq!(alive_positions(&u), line.to_vec());
}

#[test]
fn blinker_across_the_edge_has_period_two() {
    let mut u = with_cells(6, 5, &[(0, 5), (0, 0), (0, 1)]);
    let start = u.get_cells().to_vec();
    u.tick();
    assert_eq!(alive_positions(&u), vec![(0, 0), (1, 0), (4, 0)]);
    u.tick();
    assert_eq!(u.get_cells(), &start[..]);
}

#[test]
fn vertical_line_on_three_by_three() {
    let mut u = blank(3, 3);
    assert_eq!(u.get_cells(), &[D, D, D, D, D, D, D, D, D][..]);
    u.set_cells(&[(0, 1), (1, 1), (2, 1)]);
    assert_eq!(u.get_cells(), &[D, A, D, D, A, D, D, A, D][..]);
    assert_eq!(u.render(), "◻◼◻\n◻◼◻\n◻◼◻\n");
    // on a torus this small every cell is a neighbour of every other one:
    // each dead cell sees the three live ones, each live cell the other two
    u.tick();
    assert_eq!(u.get_cells(), &[A; 9][..]);
    u.tick();
    assert_eq!(u.get_cells(), &[D; 9][..]);
}

#[test]
fn vertical_line_rotates_on_five_by_five() {
    let mut u = with_cells(5, 5, &[(1, 2), (2, 2), (3, 2)]);
    assert_eq!(u.render(), "◻◻◻◻◻\n◻◻◼◻◻\n◻◻◼◻◻\n◻◻◼◻◻\n◻◻◻◻◻\n");
    u.tick();
    assert_eq!(u.render(), "◻◻◻◻◻\n◻◻◻◻◻\n◻◼◼◼◻\n◻◻◻◻◻\n◻◻◻◻◻\n");
    u.tick();
    assert_eq!(u.render(), "◻◻◻◻◻\n◻◻◼◻◻\n◻◻◼◻◻\n◻◻◼◻◻\n◻◻◻◻◻\n");
}

#[test]
fn toggle_flips_one_cell() {
    let mut u = blank(4, 3);
    u.toggle_cell(1, 2);
    assert_eq!(alive_positions(&u), vec![(1, 2)]);
    assert_eq!(u.get_cells()[6], A);
    u.toggle_cell(2, 3);
    assert_eq!(alive_positions(&u), vec![(1, 2), (2, 3)]);
    u.toggle_cell(1, 2);
    assert_eq!(alive_positions(&u), vec![(2, 3)]);
}

#[test]
fn set_cells_forces_alive_and_keeps_the_rest() {
    let mut u = with_cells(4, 4, &[(0, 0), (3, 3)]);
    u.set_cells(&[(0, 0), (1, 2), (1, 2), (2, 1)]);
    assert_eq!(alive_positions(&u), vec![(0, 0), (1, 2), (2, 1), (3, 3)]);
    u.set_cells(&[]);
    assert_eq!(alive_positions(&u), vec![(0, 0), (1, 2), (2, 1), (3, 3)]);
}

#[test]
fn glider_footprint() {
    let mut u = blank(8, 7);
    u.insert_glider(2, 3);
    assert_eq!(alive_positions(&u), vec![(2, 3), (3, 4), (3, 5), (4, 3), (4, 4)]);
    // stamping forces alive and leaves the other cells of the square alone
    u.toggle_cell(2, 4);
    u.insert_glider(2, 3);
    assert_eq!(
        alive_positions(&u),
        vec![(2, 3), (2, 4), (3, 4), (3, 5), (4, 3), (4, 4)]
    );
}

#[test]
fn glider_fits_in_the_last_corner() {
    let mut u = blank(5, 5);
    u.insert_glider(2, 2);
    assert_eq!(alive_positions(&u), vec![(2, 2), (3, 3), (3, 4), (4, 2), (4, 3)]);
}

#[test]
fn pulsar_footprint() {
    let mut u = blank(16, 15);
    u.insert_pulsar(1, 2);
    let mut expected = Vec::new();
    for dr in 0u32..13 {
        let cols: &[u32] = match dr {
            0 | 5 | 7 | 12 => &[2, 3, 4, 8, 9, 10],
            2 | 3 | 4 | 8 | 9 | 10 => &[0, 5, 7, 12],
            _ => &[],
        };
        for dc in cols {
            expected.push((1 + dr, 2 + dc));
        }
    }
    assert_eq!(expected.len(), 48);
    assert_eq!(alive_positions(&u), expected);
}

#[test]
fn pulsar_has_period_three() {
    let mut u = blank(17, 17);
    u.insert_pulsar(2, 2);
    let start = u.get_cells().to_vec();
    u.tick();
    assert_ne!(u.get_cells(), &start[..]);
    u.tick();
    assert_ne!(u.get_cells(), &start[..]);
    u.tick();
    assert_eq!(u.get_cells(), &start[..]);
}

#[test]
fn pattern_tables() {
    assert_eq!(Pattern::Glider.size(), 3);
    assert_eq!(Pattern::Pulsar.size(), 13);
    let mut glider = 0;
    let mut pulsar = 0;
    for dr in 0..20 {
        for dc in 0..20 {
            if Pattern::Glider.has(dr, dc) {
                glider += 1;
                assert!(dr < 3 && dc < 3);
            }
            if Pattern::Pulsar.has(dr, dc) {
                pulsar += 1;
                assert!(dr < 13 && dc < 13);
                // the pulsar is symmetric in both axes and in the diagonal
                assert!(Pattern::Pulsar.has(12 - dr, dc));
                assert!(Pattern::Pulsar.has(dr, 12 - dc));
                assert!(Pattern::Pulsar.has(dc, dr));
            }
        }
    }
    assert_eq!(glider, 5);
    assert_eq!(pulsar, 48);
    assert!(Pattern::Glider.has(1, 2));
    assert!(!Pattern::Glider.has(0, 1));
}

#[test]
fn clear_all_then_render_is_all_dead() {
    let mut u = Universe::new();
    u.clear_all();
    assert_eq!(u.width(), 64);
    assert_eq!(u.height(), 64);
    assert!(u.get_cells().iter().all(|c| *c == D));
    let row = format!("{}\n", "◻".repeat(64));
    assert_eq!(u.render(), row.repeat(64));
}

#[test]
fn render_draws_rows_top_to_bottom() {
    let u = with_cells(3, 2, &[(0, 0), (1, 2)]);
    assert_eq!(u.render(), "◼◻◻\n◻◻◼\n");
    let u = blank(0, 3);
    assert_eq!(u.render(), "\n\n\n");
    let before = with_cells(3, 2, &[(0, 0), (1, 2)]);
    let _ = before.render();
    assert_eq!(alive_positions(&before), vec![(0, 0), (1, 2)]);
}

#[test]
fn draw_below_one_half_is_alive() {
    assert_eq!(cell_for_draw(0.0f64.to_bits()), A);
    assert_eq!(cell_for_draw(0.25f64.to_bits()), A);
    assert_eq!(cell_for_draw(0.499999999f64.to_bits()), A);
    assert_eq!(cell_for_draw(0.5f64.to_bits()), D);
    assert_eq!(cell_for_draw(0.75f64.to_bits()), D);
    assert_eq!(cell_for_draw(0.9999999f64.to_bits()), D);
}

#[test]
fn draw_agrees_with_the_comparison_on_every_kind_of_number() {
    let samples = [
        0.0f64,
        -0.0,
        f64::MIN_POSITIVE,
        5e-324,
        0.5,
        0.5 - f64::EPSILON / 4.0,
        0.5 + f64::EPSILON,
        1.0,
        -1.0,
        -0.5,
        1e300,
        -1e300,
        f64::MAX,
        f64::MIN,
        f64::INFINITY,
        f64::NEG_INFINITY,
        f64::NAN,
        -f64::NAN,
    ];
    for x in samples.iter() {
        let expected = if *x < 0.5 { A } else { D };
        assert_eq!(cell_for_draw(x.to_bits()), expected, "{}", x);
    }
    let mut x = 0.0f64;
    while x < 1.0 {
        let expected = if x < 0.5 { A } else { D };
        assert_eq!(cell_for_draw(x.to_bits()), expected, "{}", x);
        x += 0.001953125;
    }
}

#[test]
fn fill_from_draws_decides_each_cell_by_its_draw() {
    let mut u = with_cells(3, 2, &[(0, 1), (1, 1)]);
    let draws: Vec<u64> = [0.1f64, 0.9, 0.5, 0.49, 0.0, 0.75]
        .iter()
        .map(|x| x.to_bits())
        .collect();
    u.fill_from_draws(&draws);
    assert_eq!(u.width(), 3);
    assert_eq!(u.height(), 2);
    assert_eq!(u.get_cells(), &[A, D, D, A, A, D][..]);
}

#[test]
fn evenly_spread_draws_give_half_alive() {
    let mut u = blank(100, 100);
    let draws: Vec<u64> = (0..10_000u32)
        .map(|i| (f64::from(i) / 10_000.0).to_bits())
        .collect();
    u.fill_from_draws(&draws);
    let alive = u.get_cells().iter().filter(|c| **c == A).count();
    assert_eq!(alive, 5_000);
}

#[test]
fn bounds_are_reported() {
    let u = blank(5, 4);
    assert!(u.in_bounds(0, 0));
    assert!(u.in_bounds(3, 4));
    assert!(!u.in_bounds(4, 0));
    assert!(!u.in_bounds(0, 5));
    assert!(!u.in_bounds(u32::MAX, u32::MAX));
    assert!(u.has_room(Pattern::Glider, 1, 2));
    assert!(u.has_room(Pattern::Glider, 0, 0));
    assert!(!u.has_room(Pattern::Glider, 2, 2));
    assert!(!u.has_room(Pattern::Glider, 1, 3));
    assert!(!u.has_room(Pattern::Glider, u32::MAX, 0));
    assert!(!u.has_room(Pattern::Pulsar, 0, 0));
    let u = blank(13, 14);
    assert!(u.has_room(Pattern::Pulsar, 1, 0));
    assert!(!u.has_room(Pattern::Pulsar, 2, 0));
    assert!(!u.has_room(Pattern::Pulsar, 0, 1));
    let u = blank(0, 0);
    assert!(!u.in_bounds(0, 0));
}
