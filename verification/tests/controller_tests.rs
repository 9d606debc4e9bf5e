use torus_life::controller::{App, Key, DELAY_FLOOR_MS, START_DELAY_MS};
use torus_life::grid::Life;

fn live_set(life: &Life, w: i64, h: i64) -> Vec<(i64, i64)> {
    let mut out = Vec::new();
    for y in 0..h {
        for x in 0..w {
            if life.get(x, y) {
                out.push((x, y));
            }
        }
    }
    out
}

#[test]
fn fresh_controller_state() {
    let app = App::new(8, 6);
    assert_eq!(app.life.w, 8);
    assert_eq!(app.life.h, 6);
    assert!(!app.paused);
    assert_eq!(app.delay, START_DELAY_MS);
    assert_eq!(app.cursor.x, 0);
    assert_eq!(app.cursor.y, 0);
    assert!(live_set(&app.life, 8, 6).is_empty());
}

#[test]
fn escape_quits_and_changes_nothing() {
    let mut app = App::new(5, 4);
    assert!(app.handle_key(Key::Esc));
    assert_eq!(app.cursor.x, 0);
    assert_eq!(app.cursor.y, 0);
    assert!(!app.paused);
    assert_eq!(app.delay, START_DELAY_MS);
}

#[test]
fn unknown_keys_do_nothing() {
    let mut app = App::new(5, 4);
    assert!(!app.handle_key(Key::Other));
    assert!(!app.handle_key(Key::Char('z')));
    assert_eq!(app.cursor.x, 0);
    assert_eq!(app.cursor.y, 0);
    assert!(!app.paused);
    assert_eq!(app.delay, START_DELAY_MS);
}

#[test]
fn space_toggles_pause() {
    let mut app = App::new(5, 4);
    app.handle_key(Key::Char(' '));
    assert!(app.paused);
    app.handle_key(Key::Char(' '));
    assert!(!app.paused);
}

#[test]
fn cursor_moves_and_wraps_left_edge() {
    let mut app = App::new(7, 5);
    app.handle_key(Key::Char('h'));
    assert_eq!(app.cursor.x, 6);
    app.handle_key(Key::Char('l'));
    assert_eq!(app.cursor.x, 0);
}

#[test]
fn cursor_moves_and_wraps_right_edge() {
    let mut app = App::new(7, 5);
    for _ in 0..6 {
        app.handle_key(Key::Char('l'));
    }
    assert_eq!(app.cursor.x, 6);
    app.handle_key(Key::Char('l'));
    assert_eq!(app.cursor.x, 0);
}

#[test]
fn cursor_moves_and_wraps_vertically() {
    let mut app = App::new(7, 5);
    app.handle_key(Key::Char('k'));
    assert_eq!(app.cursor.y, 4);
    app.handle_key(Key::Char('j'));
    assert_eq!(app.cursor.y, 0);
    for _ in 0..4 {
        app.handle_key(Key::Char('j'));
    }
    assert_eq!(app.cursor.y, 4);
    app.handle_key(Key::Char('j'));
    assert_eq!(app.cursor.y, 0);
}

#[test]
fn speed_up_never_drops_below_the_floor() {
    let mut app = App::new(5, 4);
    let mut seen = Vec::new();
    for _ in 0..8 {
        app.handle_key(Key::Char('+'));
        seen.push(app.delay);
    }
    assert_eq!(seen, vec![300, 200, 100, 100, 100, 100, 100, 100]);
    assert!(seen.iter().all(|d| *d >= DELAY_FLOOR_MS));
}

#[test]
fn slow_down_grows_without_bound() {
    let mut app = App::new(5, 4);
    let mut previous = app.delay;
    for _ in 0..10 {
        app.handle_key(Key::Char('-'));
        assert_eq!(app.delay, previous + 100);
        previous = app.delay;
    }
    assert_eq!(app.delay, START_DELAY_MS + 1000);
}

#[test]
fn toggle_flips_exactly_one_cell() {
    let mut app = App::new(6, 6);
    app.handle_key(Key::Char('l'));
    app.handle_key(Key::Char('j'));
    app.handle_key(Key::Char('f'));
    assert_eq!(live_set(&app.life, 6, 6), vec![(1, 1)]);
    app.handle_key(Key::Char('f'));
    assert!(live_set(&app.life, 6, 6).is_empty());
}

#[test]
fn toggle_works_the_same_while_paused() {
    let mut app = App::new(6, 6);
    app.handle_key(Key::Char(' '));
    assert!(app.paused);
    app.handle_key(Key::Char('f'));
    assert_eq!(live_set(&app.life, 6, 6), vec![(0, 0)]);
    app.handle_key(Key::Char('f'));
    assert!(live_set(&app.life, 6, 6).is_empty());
    assert!(app.paused);
}

#[test]
fn tick_paused_leaves_the_grid_alone() {
    let mut app = App::new(6, 6);
    app.handle_key(Key::Char('f'));
    app.handle_key(Key::Char(' '));
    app.tick();
    assert_eq!(live_set(&app.life, 6, 6), vec![(0, 0)]);
}

#[test]
fn tick_running_advances_one_generation() {
    let mut app = App::new(6, 6);
    app.handle_key(Key::Char('f'));
    app.tick();
    assert!(live_set(&app.life, 6, 6).is_empty());
}

#[test]
fn glider_advances_one_generation() {
    let mut app = App::new(10, 10);
    // paint the glider: f at (0,0), j f at (0,1), j f at (0,2),
    // l f at (1,2), l k f at (2,1)
    app.handle_key(Key::Char('f'));
    app.handle_key(Key::Char('j'));
    app.handle_key(Key::Char('f'));
    app.handle_key(Key::Char('j'));
    app.handle_key(Key::Char('f'));
    app.handle_key(Key::Char('l'));
    app.handle_key(Key::Char('f'));
    app.handle_key(Key::Char('l'));
    app.handle_key(Key::Char('k'));
    app.handle_key(Key::Char('f'));
    assert_eq!(
        live_set(&app.life, 10, 10),
        vec![(0, 0), (0, 1), (2, 1), (0, 2), (1, 2)]
    );
    assert!(!app.paused);
    app.tick();
    // the glider moves one step, its left column wrapping onto column 9
    assert_eq!(
        live_set(&app.life, 10, 10),
        vec![(1, 0), (0, 1), (9, 1), (0, 2), (1, 2)]
    );
}
