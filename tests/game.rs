use snaks::{Game, GameEvent, GameStatus, MoveTo, Pos};

fn p(x: u32, y: u32) -> Pos {
    Pos::new(x, y)
}

#[test]
fn wrapping_add_reduces_modulo_rectangle() {
    let r = p(4, 0).wrapping_add(p(1, 0), p(5, 5));
    assert_eq!(r, p(0, 0));
    let r = p(0, 3).wrapping_add(p(4, 0), p(5, 5));
    assert_eq!(r, p(4, 3));
    let r = p(2, 0).wrapping_add(p(0, 4), p(5, 5));
    assert_eq!(r, p(2, 4));
    let r = p(u32::MAX - 1, 0).wrapping_add(p(u32::MAX - 1, 0), p(u32::MAX, 1));
    assert_eq!(r, p(u32::MAX - 2, 0));
}

#[test]
fn opposite_is_an_involution() {
    for d in [MoveTo::Left, MoveTo::Right, MoveTo::Up, MoveTo::Down] {
        assert_ne!(d.opposite(), d);
        assert_eq!(d.opposite().opposite(), d);
    }
    assert_eq!(MoveTo::Left.opposite(), MoveTo::Right);
    assert_eq!(MoveTo::Up.opposite(), MoveTo::Down);
}

#[test]
fn new_game_starts_in_the_centre() {
    let g = Game::new(p(5, 5));
    assert_eq!(g.snake(), vec![p(2, 2)]);
    assert_eq!(g.head(), p(2, 2));
    assert_eq!(g.direction(), MoveTo::Right);
    assert_eq!(g.size(), p(5, 5));
    assert_eq!(g.stats().score, 0);
    assert_eq!(g.stats().status, GameStatus::Play);
    assert_eq!(g.last_event(), Some(GameEvent::GameStart));
    let f = g.food();
    assert!(f.x.0 < 5 && f.y.0 < 5);
    assert_ne!(f, p(2, 2));
}

#[test]
fn one_cell_grid_is_won_at_once() {
    let g = Game::new(p(1, 1));
    assert_eq!(g.stats().status, GameStatus::Win);
    assert_eq!(g.snake(), vec![p(0, 0)]);
    assert_eq!(g.stats().score, 0);
    assert_eq!(g.last_event(), Some(GameEvent::Win));
}

#[test]
fn growth_on_food() {
    let mut g = Game::new(p(5, 5));
    assert!(g.set_food(p(3, 2)));
    g.move_snake();
    assert_eq!(g.snake(), vec![p(2, 2), p(3, 2)]);
    assert_eq!(g.stats().score, 1);
    assert_eq!(g.stats().status, GameStatus::Play);
    assert_eq!(g.last_event(), Some(GameEvent::FoodEat));
    let f = g.food();
    assert!(f.x.0 < 5 && f.y.0 < 5);
    assert!(f != p(2, 2) && f != p(3, 2));
}

#[test]
fn food_is_always_placed_off_the_snake() {
    // a 3x1 field: after growing to two cells only one cell is free
    for _ in 0..50 {
        let mut g = Game::new(p(3, 1));
        let food = g.food();
        assert_ne!(food, p(1, 0));
        let dir = if food == p(2, 0) { MoveTo::Right } else { MoveTo::Left };
        g.rotate_to(dir);
        g.move_snake();
        assert_eq!(g.stats().score, 1);
        let snake = g.snake();
        assert!(!snake.contains(&g.food()));
        assert!(g.food().x.0 < 3 && g.food().y.0 < 1);
    }
}

#[test]
fn wraparound_moves() {
    let mut g = Game::new(p(5, 5));
    assert!(g.set_food(p(2, 4)));
    g.rotate_to(MoveTo::Left);
    g.move_snake();
    assert_eq!(g.head(), p(1, 2));
    g.move_snake();
    assert_eq!(g.head(), p(0, 2));
    g.move_snake();
    assert_eq!(g.head(), p(4, 2));
    assert_eq!(g.snake(), vec![p(4, 2)]);

    let mut g = Game::new(p(4, 3));
    assert!(g.set_food(p(2, 0)));
    g.move_snake();
    assert_eq!(g.head(), p(3, 1));
    g.move_snake();
    assert_eq!(g.head(), p(0, 1));
    g.rotate_to(MoveTo::Down);
    g.move_snake();
    assert_eq!(g.head(), p(0, 2));
    g.move_snake();
    assert_eq!(g.head(), p(0, 0));
    g.rotate_to(MoveTo::Up);
    g.move_snake();
    assert_eq!(g.head(), p(0, 2));
    assert_eq!(g.stats().score, 0);
}

#[test]
fn reversal_guard() {
    let mut g = Game::new(p(5, 5));
    g.rotate_to(MoveTo::Left);
    assert_eq!(g.direction(), MoveTo::Left);
    g.rotate_to(MoveTo::Right);
    assert_eq!(g.direction(), MoveTo::Right);

    assert!(g.set_food(p(3, 2)));
    g.move_snake();
    assert_eq!(g.stats().score, 1);
    g.rotate_to(MoveTo::Left);
    assert_eq!(g.direction(), MoveTo::Right);
    g.rotate_to(MoveTo::Up);
    assert_eq!(g.direction(), MoveTo::Up);
}

fn full_row_snake() -> Game {
    let mut g = Game::new(p(5, 5));
    for x in [3, 4, 0, 1] {
        assert!(g.set_food(p(x, 2)));
        g.move_snake();
    }
    g
}

#[test]
fn stepping_onto_the_snake_fails() {
    let mut g = full_row_snake();
    assert_eq!(g.snake(), vec![p(2, 2), p(3, 2), p(4, 2), p(0, 2), p(1, 2)]);
    assert_eq!(g.stats().score, 4);
    assert_eq!(g.stats().status, GameStatus::Play);
    // the next cell is the tail, which counts as occupied
    g.move_snake();
    assert_eq!(g.stats().status, GameStatus::Fail);
    assert_eq!(g.snake().len(), 5);
    assert_eq!(g.snake(), vec![p(2, 2), p(3, 2), p(4, 2), p(0, 2), p(1, 2)]);
    assert_eq!(g.last_event(), Some(GameEvent::Fail));
}

#[test]
fn terminal_state_is_idempotent() {
    let mut g = full_row_snake();
    g.move_snake();
    assert_eq!(g.stats().status, GameStatus::Fail);
    let snake = g.snake();
    let food = g.food();
    let stats = g.stats();
    for _ in 0..10 {
        g.move_snake();
        assert_eq!(g.snake(), snake);
        assert_eq!(g.food(), food);
        assert_eq!(g.stats(), stats);
    }
    assert!(!g.set_food(p(0, 0)));
}

#[test]
fn filling_the_grid_wins() {
    let mut g = Game::new(p(2, 1));
    assert_eq!(g.snake(), vec![p(1, 0)]);
    assert_eq!(g.food(), p(0, 0));
    g.move_snake();
    assert_eq!(g.snake(), vec![p(1, 0), p(0, 0)]);
    assert_eq!(g.stats().score, 1);
    assert_eq!(g.stats().status, GameStatus::Win);
    assert_eq!(g.food(), p(0, 0));
    assert_eq!(g.last_event(), Some(GameEvent::FoodEat));
    g.move_snake();
    assert_eq!(g.snake(), vec![p(1, 0), p(0, 0)]);
    assert_eq!(g.stats().status, GameStatus::Win);
}

#[test]
fn length_tracks_score() {
    let mut g = full_row_snake();
    assert_eq!(g.snake().len(), g.stats().score + 1);
    g.rotate_to(MoveTo::Down);
    g.move_snake();
    assert_eq!(g.snake().len(), g.stats().score + 1);
    let s = g.snake();
    for i in 0..s.len() {
        for j in i + 1..s.len() {
            assert_ne!(s[i], s[j]);
        }
    }
}

#[test]
fn forgot_event_clears_only_a_matching_event() {
    let mut g = Game::new(p(5, 5));
    g.forgot_event(GameEvent::FoodEat);
    assert_eq!(g.last_event(), Some(GameEvent::GameStart));
    g.forgot_event(GameEvent::GameStart);
    assert_eq!(g.last_event(), None);
}

#[test]
fn set_food_rejects_occupied_or_outside_cells() {
    let mut g = Game::new(p(5, 5));
    let food = g.food();
    assert!(!g.set_food(p(2, 2)));
    assert!(!g.set_food(p(5, 0)));
    assert!(!g.set_food(p(0, 5)));
    assert_eq!(g.food(), food);
    assert!(g.set_food(p(0, 0)));
    assert_eq!(g.food(), p(0, 0));
}

#[test]
fn conversions_into_coordinates() {
    assert_eq!(snaks::Coord::from(7u32), snaks::Coord(7));
    assert_eq!(Pos::from((3u32, 4u32)), p(3, 4));
    assert_eq!(Pos::new_coord(snaks::Coord(1), snaks::Coord(2)), p(1, 2));
    assert_eq!(p(3, 4).area(), 12);
}

#[test]
fn food_from_draws() {
    let g = Game::new(p(5, 4));
    // the snake sits on (2, 2)
    assert_eq!(g.food_from_draw(7, 2), None);
    assert_eq!(g.food_from_draw(13, 9), Some(p(3, 1)));
    assert_eq!(g.food_from_draw(0, 0), Some(p(0, 0)));
    assert_eq!(g.food_from_draw(u32::MAX, u32::MAX), Some(p(0, 3)));
}

#[test]
fn free_cells_in_row_order() {
    let mut g = Game::new(p(3, 2));
    // the snake sits on (1, 1)
    assert_eq!(g.free_count(), 5);
    assert_eq!(g.nth_free_cell(0), p(0, 0));
    assert_eq!(g.nth_free_cell(3), p(0, 1));
    assert_eq!(g.nth_free_cell(4), p(2, 1));
    assert_eq!(g.nth_free_cell(5), p(0, 0));
    assert_eq!(g.nth_free_cell(u64::MAX), p(0, 0));
    assert!(g.set_food(p(2, 1)));
    g.move_snake();
    assert_eq!(g.free_count(), 4);
    assert_eq!(g.nth_free_cell(3), p(0, 1));
    assert_eq!(g.nth_free_cell(2), p(2, 0));
}

#[test]
fn next_position_wraps() {
    let g = Game::new(p(5, 3));
    // the head is at (2, 1)
    assert_eq!(g.get_next_pos(MoveTo::Left), p(1, 1));
    assert_eq!(g.get_next_pos(MoveTo::Right), p(3, 1));
    assert_eq!(g.get_next_pos(MoveTo::Up), p(2, 0));
    assert_eq!(g.get_next_pos(MoveTo::Down), p(2, 2));
    let g = Game::new(p(1, 2));
    // the head is at (0, 1)
    assert_eq!(g.get_next_pos(MoveTo::Left), p(0, 1));
    assert_eq!(g.get_next_pos(MoveTo::Down), p(0, 0));
}
