use falling_sand::{Cell, Grid};

fn sand_count(g: &Grid) -> usize {
    let mut n = 0;
    for y in 0..g.height() {
        for x in 0..g.width() {
            if g.get(x, y) == Cell::Sand {
                n += 1;
            }
        }
    }
    n
}

fn snapshot(g: &Grid) -> Vec<Cell> {
    let mut v = Vec::new();
    for y in 0..g.height() {
        for x in 0..g.width() {
            v.push(g.get(x, y));
        }
    }
    v
}

fn coins(g: &Grid, value: bool) -> Vec<bool> {
    vec![value; g.width() * g.height()]
}

/// A small deterministic generator for scattering grains in tests.
fn next(seed: &mut u64) -> u64 {
    *seed = seed.wrapping_mul(6364136223846793005).wrapping_add(1442695040888963407);
    *seed >> 33
}

fn scattered(w: usize, h: usize, seed: u64) -> Grid {
    let mut g = Grid::new(w, h);
    let mut s = seed;
    for y in 0..h {
        for x in 0..w {
            if next(&mut s) % 3 == 0 {
                g.set_cell(x, y, Cell::Sand);
            }
        }
    }
    g
}

#[test]
fn new_grid_is_all_air() {
    let g = Grid::new(4, 3);
    assert_eq!(g.width(), 4);
    assert_eq!(g.height(), 3);
    assert!(snapshot(&g).iter().all(|c| *c == Cell::Air));
    assert!(g.visible_cells().is_empty());
}

#[test]
fn bounds_safety() {
    let g = Grid::new(4, 3);
    assert!(g.in_bounds(3, 2));
    assert!(g.in_bounds(0, 0));
    assert!(!g.in_bounds(4, 0));
    assert!(!g.in_bounds(0, 3));
    assert!(!g.in_bounds(100, 100));
    assert!(!g.in_bounds(0usize.wrapping_sub(1), 0));
    assert!(!g.in_bounds(0, 0usize.wrapping_sub(1)));
    assert!(!g.movable(0usize.wrapping_sub(1), 1));
}

#[test]
fn cell_visibility() {
    assert!(!Cell::Air.visible());
    assert!(Cell::Sand.visible());
}

#[test]
fn set_cell_off_board_is_ignored() {
    let mut g = Grid::new(3, 3);
    let before = snapshot(&g);
    g.set_cell(3, 0, Cell::Sand);
    g.set_cell(0, 3, Cell::Sand);
    g.set_cell(usize::MAX, usize::MAX, Cell::Sand);
    assert_eq!(snapshot(&g), before);
    g.set_cell(1, 2, Cell::Sand);
    assert_eq!(g.get(1, 2), Cell::Sand);
    assert!(!g.is_empty(1, 2));
    assert!(!g.movable(1, 2));
    g.set_cell(1, 2, Cell::Air);
    assert!(g.is_empty(1, 2));
}

#[test]
fn move_cell_leaves_air_behind() {
    let mut g = Grid::new(3, 3);
    g.set_cell(0, 0, Cell::Sand);
    g.move_cell(0, 0, 2, 1);
    assert_eq!(g.get(0, 0), Cell::Air);
    assert_eq!(g.get(2, 1), Cell::Sand);
    assert_eq!(sand_count(&g), 1);
}

#[test]
fn settling_single_grain() {
    let (w, h, x0, y0) = (5, 6, 2, 1);
    let mut g = Grid::new(w, h);
    g.set_cell(x0, y0, Cell::Sand);
    for n in 1..=(h - 1 - y0) {
        let c = coins(&g, n % 2 == 0);
        g.step_with(&c);
        assert_eq!(g.visible_cells(), vec![(x0, y0 + n)]);
    }
    for _ in 0..5 {
        g.step();
        assert_eq!(g.visible_cells(), vec![(x0, h - 1)]);
    }
}

#[test]
fn settling_from_top_row_with_random_ties() {
    let mut g = Grid::new(3, 4);
    g.set_cell(0, 0, Cell::Sand);
    g.step();
    assert_eq!(g.visible_cells(), vec![(0, 1)]);
    g.step();
    assert_eq!(g.visible_cells(), vec![(0, 2)]);
    g.step();
    assert_eq!(g.visible_cells(), vec![(0, 3)]);
    g.step();
    assert_eq!(g.visible_cells(), vec![(0, 3)]);
}

#[test]
fn column_falls_one_row_per_tick() {
    let mut g = Grid::new(1, 5);
    g.set_cell(0, 0, Cell::Sand);
    g.set_cell(0, 1, Cell::Sand);
    g.step();
    assert_eq!(g.visible_cells(), vec![(0, 1), (0, 2)]);
    g.step();
    assert_eq!(g.visible_cells(), vec![(0, 2), (0, 3)]);
    g.step();
    assert_eq!(g.visible_cells(), vec![(0, 3), (0, 4)]);
    g.step();
    assert_eq!(g.visible_cells(), vec![(0, 3), (0, 4)]);
}

#[test]
fn no_double_move_per_tick() {
    for seed in 0..20u64 {
        let mut g = scattered(9, 7, seed);
        for _ in 0..4 {
            let before = snapshot(&g);
            let (w, h) = (g.width(), g.height());
            g.step();
            let was = |x: isize, y: isize| {
                x >= 0
                    && y >= 0
                    && (x as usize) < w
                    && (y as usize) < h
                    && before[y as usize * w + x as usize] == Cell::Sand
            };
            for (x, y) in g.visible_cells() {
                let (x, y) = (x as isize, y as isize);
                assert!(
                    was(x, y) || was(x - 1, y - 1) || was(x, y - 1) || was(x + 1, y - 1),
                    "grain at ({}, {}) came from further away",
                    x,
                    y
                );
            }
        }
    }
}

#[test]
fn clipped_paint_at_corner() {
    let mut g = Grid::new(5, 5);
    g.paint(0, 0, 1);
    assert_eq!(g.visible_cells(), vec![(0, 0), (1, 0), (0, 1), (1, 1)]);
    let mut g = Grid::new(5, 5);
    g.paint(4, 4, 2);
    let expected: Vec<(usize, usize)> =
        (2..5).flat_map(|y| (2..5).map(move |x| (x, y))).collect();
    assert_eq!(g.visible_cells(), expected);
}

#[test]
fn clipped_paint_inside_and_past_edges() {
    let mut g = Grid::new(6, 4);
    g.paint(2, 1, 1);
    let expected: Vec<(usize, usize)> =
        (0..3).flat_map(|y| (1..4).map(move |x| (x, y))).collect();
    assert_eq!(g.visible_cells(), expected);

    let mut g = Grid::new(6, 4);
    g.paint(10, 2, 5);
    let expected: Vec<(usize, usize)> =
        (0..4).flat_map(|y| (5..6).map(move |x| (x, y))).collect();
    assert_eq!(g.visible_cells(), expected);

    let mut g = Grid::new(6, 4);
    g.paint(20, 20, 3);
    assert!(g.visible_cells().is_empty());

    let mut g = Grid::new(3, 2);
    g.paint(usize::MAX, usize::MAX, usize::MAX);
    assert_eq!(sand_count(&g), 6);
}

#[test]
fn paint_with_zero_radius_sets_one_cell() {
    let mut g = Grid::new(4, 4);
    g.paint(3, 2, 0);
    assert_eq!(g.visible_cells(), vec![(3, 2)]);
}

#[test]
fn conservation_across_ticks() {
    for seed in 0..10u64 {
        let mut g = scattered(12, 10, seed);
        let n = sand_count(&g);
        for _ in 0..30 {
            g.step();
            assert_eq!(sand_count(&g), n);
        }
        g.paint(5, 0, 1);
        let m = sand_count(&g);
        assert!(m >= n);
        for _ in 0..30 {
            g.step();
            assert_eq!(sand_count(&g), m);
        }
    }
}

#[test]
fn blocked_pile_is_stable() {
    let mut g = Grid::new(2, 2);
    g.paint(0, 0, 1);
    let before = snapshot(&g);
    for _ in 0..10 {
        g.step();
        assert_eq!(snapshot(&g), before);
    }

    let mut g = Grid::new(2, 6);
    g.set_cell(0, 4, Cell::Sand);
    g.set_cell(1, 4, Cell::Sand);
    g.set_cell(0, 5, Cell::Sand);
    g.set_cell(1, 5, Cell::Sand);
    let before = snapshot(&g);
    for _ in 0..10 {
        g.step();
        assert_eq!(snapshot(&g), before);
    }
}

#[test]
fn block_on_wide_floor_spreads() {
    let mut g = Grid::new(4, 2);
    g.set_cell(1, 0, Cell::Sand);
    g.set_cell(2, 0, Cell::Sand);
    g.set_cell(1, 1, Cell::Sand);
    g.set_cell(2, 1, Cell::Sand);
    g.step();
    assert_eq!(g.visible_cells(), vec![(0, 1), (1, 1), (2, 1), (3, 1)]);
}

fn tie_board() -> Grid {
    let mut g = Grid::new(3, 2);
    g.set_cell(1, 0, Cell::Sand);
    g.set_cell(1, 1, Cell::Sand);
    g
}

#[test]
fn tie_break_follows_coin() {
    let mut g = tie_board();
    g.step_with(&vec![true; 6]);
    assert_eq!(g.visible_cells(), vec![(1, 1), (2, 1)]);
    let mut g = tie_board();
    g.step_with(&vec![false; 6]);
    assert_eq!(g.visible_cells(), vec![(0, 1), (1, 1)]);
    let mut g = tie_board();
    let mut c = vec![false; 6];
    c[1] = true;
    g.step_with(&c);
    assert_eq!(g.visible_cells(), vec![(1, 1), (2, 1)]);
}

#[test]
fn single_free_diagonal_ignores_coin() {
    for coin in [false, true] {
        let mut g = tie_board();
        g.set_cell(0, 1, Cell::Sand);
        g.step_with(&vec![coin; 6]);
        assert_eq!(g.visible_cells(), vec![(0, 1), (1, 1), (2, 1)]);

        let mut g = tie_board();
        g.set_cell(2, 1, Cell::Sand);
        g.fall_at(1, 0, coin);
        assert_eq!(g.visible_cells(), vec![(0, 1), (1, 1), (2, 1)]);
    }
}

#[test]
fn left_edge_does_not_wrap() {
    let mut g = Grid::new(3, 2);
    g.set_cell(0, 0, Cell::Sand);
    g.set_cell(0, 1, Cell::Sand);
    g.set_cell(1, 1, Cell::Sand);
    g.set_cell(2, 0, Cell::Sand);
    let before = snapshot(&g);
    g.step_with(&vec![false; 6]);
    let mut after = before.clone();
    after[2] = Cell::Air;
    after[5] = Cell::Sand;
    assert_eq!(snapshot(&g), after);
    assert_eq!(g.get(0, 0), Cell::Sand);
}

#[test]
fn random_tie_break_coverage() {
    let trials = 2000;
    let mut right = 0;
    let mut left = 0;
    for _ in 0..trials {
        let mut g = tie_board();
        g.step();
        if g.get(2, 1) == Cell::Sand {
            right += 1;
        }
        if g.get(0, 1) == Cell::Sand {
            left += 1;
        }
        assert_eq!(g.get(1, 0), Cell::Air);
    }
    assert_eq!(left + right, trials);
    assert!(right > 800 && right < 1200, "right = {}", right);
    assert!(left > 800 && left < 1200, "left = {}", left);
}

#[test]
fn visible_cells_in_row_major_order() {
    let mut g = Grid::new(3, 3);
    g.set_cell(2, 2, Cell::Sand);
    g.set_cell(0, 1, Cell::Sand);
    g.set_cell(2, 0, Cell::Sand);
    g.set_cell(1, 1, Cell::Sand);
    assert_eq!(g.visible_cells(), vec![(2, 0), (0, 1), (1, 1), (2, 2)]);
}
