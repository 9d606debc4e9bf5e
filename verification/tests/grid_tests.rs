use torus_life::grid::Life;

fn live_set(life: &Life, w: i64, h: i64) -> Vec<(i64, i64)> {
    let mut out = Vec::new();
    for y in 0..h {
        for x in 0..w {
            if life.get(x, y) {
                out.push((x, y));
            }
        }
    }
    out
}

#[test]
fn new_grid_is_all_dead() {
    let g = Life::new(4, 3);
    assert_eq!(g.w, 4);
    assert_eq!(g.h, 3);
    for y in -3..6 {
        for x in -4..8 {
            assert!(!g.get(x, y));
        }
    }
}

#[test]
fn set_and_get_roundtrip() {
    let mut g = Life::new(4, 3);
    g.set(2, 1, true);
    assert!(g.get(2, 1));
    g.set(2, 1, false);
    assert!(!g.get(2, 1));
}

#[test]
fn negative_coordinates_wrap() {
    let mut g = Life::new(5, 4);
    g.set(-1, -1, true);
    assert!(g.get(4, 3));
    assert_eq!(live_set(&g, 5, 4), vec![(4, 3)]);
}

#[test]
fn toroidal_periodicity_of_get() {
    let mut g = Life::new(5, 4);
    g.set(2, 3, true);
    g.set(0, 0, true);
    for k in -3i64..4 {
        for y in 0..4 {
            for x in 0..5 {
                assert_eq!(g.get(x + k * 5, y + k * 4), g.get(x, y));
            }
        }
    }
}

#[test]
fn neighbour_count_skips_the_cell_itself() {
    let mut g = Life::new(5, 5);
    g.set(2, 2, true);
    assert_eq!(g.count_live_neighbours(2, 2), 0);
    assert_eq!(g.count_live_neighbours(1, 1), 1);
    assert_eq!(g.count_live_neighbours(3, 3), 1);
}

#[test]
fn neighbour_count_sees_all_eight() {
    let mut g = Life::new(5, 5);
    for dy in -1..=1 {
        for dx in -1..=1 {
            if dx != 0 || dy != 0 {
                g.set(2 + dx, 2 + dy, true);
            }
        }
    }
    assert_eq!(g.count_live_neighbours(2, 2), 8);
}

#[test]
fn neighbour_count_wraps_around_the_edges() {
    let mut g = Life::new(5, 5);
    g.set(4, 4, true);
    g.set(0, 4, true);
    g.set(4, 0, true);
    assert_eq!(g.count_live_neighbours(0, 0), 3);
}

#[test]
fn step_of_all_dead_is_all_dead() {
    let g = Life::new(6, 6);
    let next = g.step();
    assert!(live_set(&next, 6, 6).is_empty());
}

#[test]
fn isolated_cell_dies() {
    let mut g = Life::new(6, 6);
    g.set(3, 3, true);
    let next = g.step();
    assert!(live_set(&next, 6, 6).is_empty());
}

#[test]
fn step_is_deterministic() {
    let mut g = Life::new(6, 6);
    g.set(1, 1, true);
    g.set(2, 1, true);
    g.set(1, 2, true);
    let a = live_set(&g.step(), 6, 6);
    let b = live_set(&g.step(), 6, 6);
    assert_eq!(a, b);
}

#[test]
fn block_still_life_is_stable() {
    let mut g = Life::new(6, 6);
    g.set(2, 2, true);
    g.set(3, 2, true);
    g.set(2, 3, true);
    g.set(3, 3, true);
    let next = g.step();
    assert_eq!(live_set(&next, 6, 6), vec![(2, 2), (3, 2), (2, 3), (3, 3)]);
    let third = next.step();
    assert_eq!(live_set(&third, 6, 6), vec![(2, 2), (3, 2), (2, 3), (3, 3)]);
}

#[test]
fn blinker_oscillates_with_period_two() {
    let mut g = Life::new(5, 5);
    g.set(1, 2, true);
    g.set(2, 2, true);
    g.set(3, 2, true);
    let gen1 = g.step();
    assert_eq!(live_set(&gen1, 5, 5), vec![(2, 1), (2, 2), (2, 3)]);
    let gen2 = gen1.step();
    assert_eq!(live_set(&gen2, 5, 5), vec![(1, 2), (2, 2), (3, 2)]);
}
