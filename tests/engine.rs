use neuro_snake::game::{count_free_cells, nth_free_cell, occupies, Game, Key, MapItem};
use neuro_snake::snake::{Snake, GRID_SIZE};

#[test]
fn snake_starts_with_two_segments_moving_right() {
    let s = Snake::new();
    let mid = (GRID_SIZE / 2) as i32;
    assert_eq!(s.get_snake(), &vec![(3, mid), (2, mid)]);
    assert_eq!(s.get_direction(), (1, 0));
    assert_eq!(s.get_next_head(), (4, mid));
    assert!(!s.is_dead());
}

#[test]
fn snake_update_shifts_and_extends() {
    let mut s = Snake::with_grid_size(10);
    s.update(false);
    assert_eq!(s.get_snake(), &vec![(4, 5), (3, 5)]);
    s.change_direction((0, 1));
    s.update(true);
    assert_eq!(s.get_snake(), &vec![(4, 6), (4, 5), (3, 5)]);
    assert_eq!(s.get_size(), 3);
}

#[test]
fn snake_dies_at_the_wall() {
    let mut s = Snake::with_grid_size(4);
    assert!(!s.is_dead());
    s.update(false);
    assert_eq!(s.get_head(), (4, 2));
    assert!(s.is_dead());
}

#[test]
fn snake_dies_on_itself() {
    let mut s = Snake::with_grid_size(10);
    s.update(true);
    s.update(true);
    s.update(true);
    // body (6,5) (5,5) (4,5) (3,5) (2,5); turn down, left, up
    s.change_direction((0, 1));
    s.update(false);
    s.change_direction((-1, 0));
    s.update(false);
    assert!(!s.is_dead());
    s.change_direction((0, -1));
    s.update(false);
    assert_eq!(s.get_head(), (5, 5));
    assert!(s.is_dead());
}

#[test]
fn game_starts_at_default_layout() {
    let g = Game::new();
    assert_eq!(g.get_snake_head(), (3, 12));
    assert_eq!(g.get_apple(), (8, 12));
    assert_eq!(g.get_score(), 0);
    assert_eq!(g.get_turns(), 0);
    assert!(g.is_alive());
}

#[test]
fn head_outside_grid_is_always_dead() {
    for n in 4u32..12 {
        let mut g = Game::with_target(n, (0, 0));
        let mut steps = 0;
        while g.is_alive() {
            g.update();
            steps += 1;
            let h = g.get_snake_head();
            let outside = h.0 < 0 || h.1 < 0 || h.0 >= n as i32 || h.1 >= n as i32;
            if outside {
                assert!(!g.is_alive());
            }
        }
        assert_eq!(steps, n - 3);
    }
}

#[test]
fn eating_grows_by_one_and_keeps_cells() {
    let mut g = Game::with_target(10, (4, 5));
    g.update();
    assert_eq!(g.get_score(), 1);
    assert_eq!(g.get_snake_head(), (4, 5));
    let map = g.get_map();
    assert_eq!(map[5][4], MapItem::Snake);
    assert_eq!(map[5][3], MapItem::Snake);
    assert_eq!(map[5][2], MapItem::Snake);
    let a = g.get_apple();
    assert!(a.0 >= 0 && a.0 < 10 && a.1 >= 0 && a.1 < 10);
    assert!(!(a == (4, 5) || a == (3, 5) || a == (2, 5)));
}

#[test]
fn target_is_always_placed_on_a_free_cell() {
    for _ in 0..50 {
        let mut g = Game::with_target(4, (3, 3));
        g.handle_input(Key::Down);
        g.update();
        // head (3,3) reached the target
        assert_eq!(g.get_score(), 1);
        let a = g.get_apple();
        assert!(a.0 >= 0 && a.0 < 4 && a.1 >= 0 && a.1 < 4);
        assert!(a != (3, 3) && a != (3, 2) && a != (2, 2));
    }
}

#[test]
fn reverse_request_is_ignored() {
    let mut g = Game::with_target(10, (0, 0));
    g.handle_input(Key::Left);
    assert_eq!(g.get_pending_direction(), (1, 0));
    g.update();
    assert_eq!(g.get_snake_head(), (4, 5));
    g.handle_input(Key::Up);
    assert_eq!(g.get_pending_direction(), (0, -1));
    g.update();
    assert_eq!(g.get_snake_head(), (4, 4));
    g.handle_input(Key::Down);
    assert_eq!(g.get_pending_direction(), (0, -1));
}

#[test]
fn dead_game_does_not_change() {
    let mut g = Game::with_target(4, (0, 0));
    g.update();
    assert!(!g.is_alive());
    let turns = g.get_turns();
    let head = g.get_snake_head();
    g.update();
    assert_eq!(g.get_turns(), turns);
    assert_eq!(g.get_snake_head(), head);
}

#[test]
fn map_marks_body_and_target() {
    let g = Game::with_target(6, (5, 0));
    let map = g.get_map();
    assert_eq!(map.len(), 6);
    assert_eq!(map[0].len(), 6);
    assert_eq!(map[0][5], MapItem::Apple);
    assert_eq!(map[3][3], MapItem::Snake);
    assert_eq!(map[3][2], MapItem::Snake);
    assert_eq!(map[3][1], MapItem::Empty);
    let snakes = map.iter().flatten().filter(|c| **c == MapItem::Snake).count();
    assert_eq!(snakes, 2);
}

#[test]
fn free_cells_are_counted_and_indexed_row_major() {
    let body = vec![(0, 0), (1, 0)];
    assert_eq!(count_free_cells(&body, 4), 14);
    assert_eq!(nth_free_cell(&body, 4, 0), (2, 0));
    assert_eq!(nth_free_cell(&body, 4, 2), (0, 1));
    assert_eq!(nth_free_cell(&body, 4, 13), (3, 3));
    assert!(occupies(&body, (1, 0)));
    assert!(!occupies(&body, (0, 1)));
}
