use std::time::Duration;

use minefield::pattern::has_pattern_mine;
use minefield::{Level, Model, Position, State, HEIGHT, WIDTH};

fn started(level: Level) -> Model {
    let mut m = Model::default();
    m.initialize(Duration::from_secs(1_700_000_000));
    m.start_game(level, 1_000);
    m
}

fn pattern_positions() -> Vec<Position> {
    let mut ps = Vec::new();
    for y in 0..HEIGHT {
        for x in 0..WIDTH {
            if has_pattern_mine(x, y) {
                ps.push(Position::from_xy(x as i32, y as i32));
            }
        }
    }
    ps
}

fn marks(m: &Model) -> usize {
    let mut n = 0;
    for y in 0..HEIGHT as i32 {
        for x in 0..WIDTH as i32 {
            if m.has_mine(Position::from_xy(x, y)) {
                n += 1;
            }
        }
    }
    n
}

#[test]
fn level_geometry() {
    assert_eq!(Level::Small.width(), 8);
    assert_eq!(Level::Small.height(), 15);
    assert_eq!(Level::Small.offset(), Position::from_xy(4, 7));
    assert_eq!(Level::Large.width(), 30);
    assert_eq!(Level::Large.height(), 30);
    assert_eq!(Level::Large.offset(), Position::from_xy(0, 0));
    assert_eq!(Level::default(), Level::Large);
}

#[test]
fn default_model_is_initial() {
    let m = Model::default();
    assert_eq!(m.state(), State::Initial);
    assert_eq!(m.remaining_mines(), 0);
    assert_eq!(m.elapsed_time(), 0);
    assert_eq!(m.surrounding_mines().len(), 0);
}

#[test]
fn initialize_opens_whole_grid() {
    let mut m = Model::default();
    m.initialize(Duration::from_secs(1_700_000_000));
    assert_eq!(m.state(), State::Initial);
    assert_eq!(m.surrounding_mines().len(), WIDTH * HEIGHT);
    assert!(m.surrounding_mines().iter().all(|(_, v)| *v == 0));
}

#[test]
fn start_game_sets_budget_and_state() {
    let m = started(Level::Large);
    assert_eq!(m.state(), State::Playing);
    assert_eq!(m.remaining_mines(), 129);
    assert_eq!(m.start_time(), 1_000);
    let m = started(Level::Small);
    assert_eq!(m.state(), State::Playing);
    assert_eq!(m.remaining_mines(), 22);
    assert_eq!(marks(&m), 0);
}

#[test]
fn start_game_after_win_restarts() {
    let mut m = started(Level::Small);
    for p in pattern_positions() {
        m.handle_click(p);
    }
    assert!(matches!(m.state(), State::Won { .. }));
    m.start_game(Level::Small, 5_000);
    assert_eq!(m.state(), State::Playing);
    assert_eq!(m.remaining_mines(), 22);
    assert_eq!(marks(&m), 0);
    assert_eq!(m.start_time(), 5_000);
}

#[test]
fn small_level_listing_is_row_major() {
    let m = started(Level::Small);
    let list = m.surrounding_mines();
    assert_eq!(list.len(), 8 * 15);
    assert_eq!(list[0], (Position::from_xy(4, 7), 0));
    assert_eq!(list[1].0, Position::from_xy(5, 7));
    assert_eq!(list[8].0, Position::from_xy(4, 8));
    assert_eq!(list[119].0, Position::from_xy(11, 21));
    let at = list.iter().find(|(p, _)| *p == Position::from_xy(8, 10)).unwrap();
    assert_eq!(at.1, 3);
}

#[test]
fn mismatch_values_on_large_level() {
    let mut m = started(Level::Large);
    assert_eq!(m.surrounding_mines_at(Position::from_xy(2, 2)), 3);
    assert_eq!(m.surrounding_mines_at(Position::from_xy(3, 3)), 7);
    assert_eq!(m.surrounding_mines_at(Position::from_xy(0, 0)), 0);
    assert_eq!(m.surrounding_mines_at(Position::from_xy(9, 6)), 3);
    m.handle_click(Position::from_xy(2, 2));
    assert!(m.has_mine(Position::from_xy(2, 2)));
    assert_eq!(m.remaining_mines(), 128);
    assert_eq!(m.surrounding_mines_at(Position::from_xy(3, 3)), 6);
}

#[test]
fn mismatch_can_be_negative() {
    let mut m = started(Level::Large);
    for x in 0..3 {
        for y in 0..2 {
            m.handle_click(Position::from_xy(x, y));
        }
    }
    assert_eq!(m.surrounding_mines_at(Position::from_xy(0, 0)), -4);
    assert_eq!(m.surrounding_mines_at(Position::from_xy(1, 0)), -6);
}

#[test]
fn outside_region_is_inert() {
    let mut m = started(Level::Small);
    let before = m.surrounding_mines();
    for p in [
        Position::from_xy(3, 7),
        Position::from_xy(12, 7),
        Position::from_xy(4, 22),
        Position::from_xy(2, 2),
        Position::from_xy(-1, -1),
        Position::from_xy(i32::MAX, i32::MIN),
    ] {
        assert_eq!(m.surrounding_mines_at(p), 0);
        m.handle_click(p);
        assert_eq!(m.remaining_mines(), 22);
    }
    assert_eq!(m.surrounding_mines(), before);
    assert_eq!(marks(&m), 0);
}

#[test]
fn double_click_restores_budget_and_mismatches() {
    let mut m = started(Level::Small);
    let before = m.surrounding_mines();
    let p = Position::from_xy(6, 9);
    m.handle_click(p);
    assert!(m.has_mine(p));
    assert_eq!(m.remaining_mines(), 21);
    assert_ne!(m.surrounding_mines(), before);
    m.handle_click(p);
    assert!(!m.has_mine(p));
    assert_eq!(m.remaining_mines(), 22);
    assert_eq!(m.surrounding_mines(), before);
    assert_eq!(m.state(), State::Playing);
}

#[test]
fn budget_is_conserved_over_clicks() {
    let mut m = started(Level::Small);
    let mut seed: u32 = 12345;
    for _ in 0..500 {
        seed = seed.wrapping_mul(1103515245).wrapping_add(12345);
        let x = 3 + ((seed >> 8) % 10) as i32;
        let y = 6 + ((seed >> 16) % 17) as i32;
        m.handle_click(Position::from_xy(x, y));
        assert_eq!(m.remaining_mines() + marks(&m), 22);
    }
}

#[test]
fn budget_exhausted_blocks_new_marks_but_not_removal() {
    let mut m = started(Level::Small);
    let mut placed = Vec::new();
    'outer: for y in 7..22 {
        for x in 4..12 {
            if m.remaining_mines() == 0 {
                break 'outer;
            }
            let p = Position::from_xy(x, y);
            m.handle_click(p);
            placed.push(p);
        }
    }
    assert_eq!(m.remaining_mines(), 0);
    assert_eq!(m.state(), State::Playing);
    let free = Position::from_xy(11, 21);
    m.handle_click(free);
    assert!(!m.has_mine(free));
    assert_eq!(m.remaining_mines(), 0);
    m.handle_click(placed[0]);
    assert!(!m.has_mine(placed[0]));
    assert_eq!(m.remaining_mines(), 1);
}

#[test]
fn win_keeps_elapsed_time_from_before() {
    let mut m = started(Level::Small);
    let ps = pattern_positions();
    for p in &ps {
        m.handle_click(*p);
    }
    // undo and redo the last mark at a later time
    let last = Position::from_xy(11, 18);
    m.start_game(Level::Small, 1_000);
    for p in &ps {
        if *p != last {
            m.handle_click(*p);
        }
    }
    m.update_elapsed_time(4_500);
    assert_eq!(m.elapsed_time(), 3_500);
    assert_eq!(m.state(), State::Playing);
    m.handle_click(last);
    assert_eq!(m.state(), State::Won { elapsed_time: 3_500 });
    m.update_elapsed_time(9_000);
    assert_eq!(m.elapsed_time(), 8_000);
    assert_eq!(m.state(), State::Won { elapsed_time: 3_500 });
    m.handle_click(last);
    assert!(m.has_mine(last));
}

#[test]
fn small_level_pattern_clicked_once_wins() {
    let mut m = started(Level::Small);
    for p in pattern_positions() {
        m.handle_click(p);
    }
    assert_eq!(m.remaining_mines(), 0);
    assert!(matches!(m.state(), State::Won { .. }));
}

#[test]
fn small_level_pattern_with_one_clicked_twice_keeps_playing() {
    let mut m = started(Level::Small);
    let twice = Position::from_xy(8, 8);
    for p in pattern_positions() {
        m.handle_click(p);
        if p == twice {
            m.handle_click(p);
        }
    }
    assert_eq!(m.state(), State::Playing);
    assert_eq!(m.remaining_mines(), 1);
}

#[test]
fn clicks_before_start_change_nothing() {
    let mut m = Model::default();
    m.initialize(Duration::from_secs(1_700_000_000));
    for y in 0..HEIGHT as i32 {
        for x in 0..WIDTH as i32 {
            m.handle_click(Position::from_xy(x, y));
        }
    }
    assert_eq!(m.state(), State::Initial);
    assert_eq!(m.remaining_mines(), 0);
    assert_eq!(marks(&m), 0);
    assert!(m.surrounding_mines().iter().all(|(_, v)| *v == 0));
}

#[test]
fn large_level_pattern_wins() {
    let mut m = started(Level::Large);
    let ps = pattern_positions();
    assert_eq!(ps.len(), 129);
    for p in ps {
        assert_eq!(m.state(), State::Playing);
        m.handle_click(p);
    }
    assert_eq!(m.state(), State::Won { elapsed_time: 0 });
}

#[test]
fn cloned_model_plays_the_same() {
    let mut a = started(Level::Small);
    a.handle_click(Position::from_xy(8, 8));
    let mut b = a.clone();
    assert_eq!(b.remaining_mines(), 21);
    assert!(b.has_mine(Position::from_xy(8, 8)));
    a.handle_click(Position::from_xy(8, 9));
    b.handle_click(Position::from_xy(8, 9));
    assert_eq!(a.surrounding_mines(), b.surrounding_mines());
    assert_eq!(a.remaining_mines(), b.remaining_mines());
}
