use snaks::{
    Achivement, App, AppState, DifficultyKind, GameStatus, Key, MoveTo, Pos,
};

fn started() -> App {
    let mut app = App::new();
    app.resize(Pos::new(80, 40), Pos::new(9, 9));
    app
}

#[test]
fn new_app_defaults() {
    let app = App::new();
    assert!(app.playing());
    assert!(!app.exited());
    assert!(!app.paused());
    assert_eq!(app.difficulty().kind, DifficultyKind::Normal);
    assert_eq!(app.ui_fps(), 50_000);
    assert_eq!(app.event_fps(), 16_666);
    assert_eq!(app.game().stats().status, GameStatus::Win);
}

#[test]
fn resize_restarts_on_new_frame_only() {
    let mut app = started();
    assert_eq!(app.game().size(), Pos::new(9, 9));
    assert_eq!(app.game().snake(), vec![Pos::new(4, 4)]);
    assert_eq!(app.block_size(), Pos::new(80, 40));
    app.handle_key_event(Key::Left);
    app.resize(Pos::new(80, 40), Pos::new(3, 3));
    assert_eq!(app.game().size(), Pos::new(9, 9));
    assert_eq!(app.game().direction(), MoveTo::Left);
    app.resize(Pos::new(10, 2), Pos::new(2, 0));
    assert_eq!(app.game().size(), Pos::new(1, 1));
    assert!(app.game_ended());
}

#[test]
fn keys_quit_pause_debug_toggle() {
    let mut app = started();
    app.handle_key_event(Key::Esc);
    assert!(app.paused());
    app.handle_key_event(Key::Up);
    assert_eq!(app.game().direction(), MoveTo::Right);
    app.handle_key_event(Key::Esc);
    assert!(!app.paused());
    app.handle_key_event(Key::Up);
    assert_eq!(app.game().direction(), MoveTo::Up);
    app.handle_key_event(Key::F(3));
    assert!(app.debug());
    app.handle_key_event(Key::Char('a'));
    assert!(app.show_achivements_grouped());
    app.handle_key_event(Key::Char('q'));
    assert!(app.exited());
}

#[test]
fn selecting_a_new_difficulty_restarts() {
    let mut app = started();
    app.move_snake();
    app.handle_key_event(Key::Char('d'));
    assert!(app.selecting_difficulty());
    assert!(app.paused());
    app.handle_key_event(Key::Right);
    assert_eq!(app.difficulty().kind, DifficultyKind::Medium);
    assert!(app.difficulty_changed());
    app.handle_key_event(Key::Enter);
    assert!(app.playing());
    assert!(!app.paused());
    assert_eq!(app.difficulty().prev, DifficultyKind::Medium);
    assert_eq!(app.difficulty().fps.duration(), 66_666);
    assert_eq!(app.ui_fps(), 50_000);
    assert_eq!(app.event_fps(), 16_666);
    assert_eq!(app.game().snake(), vec![Pos::new(4, 4)]);
}

#[test]
fn fast_difficulty_shortens_ui_ticks() {
    let mut app = started();
    app.handle_key_event(Key::Char('d'));
    app.handle_key_event(Key::Char('s'));
    assert_eq!(app.difficulty().kind, DifficultyKind::Secret);
    app.handle_key_event(Key::Enter);
    assert_eq!(app.ui_fps(), 10_000);
    assert_eq!(app.event_fps(), 10_000);
}

#[test]
fn cancelling_the_selector_keeps_difficulty() {
    let mut app = started();
    app.handle_key_event(Key::Char('d'));
    app.handle_key_event(Key::Left);
    assert_eq!(app.difficulty().kind, DifficultyKind::Easy);
    app.handle_key_event(Key::Char('d'));
    assert_eq!(app.difficulty().kind, DifficultyKind::Normal);
    assert!(app.playing());
    assert!(!app.paused());

    app.handle_key_event(Key::Esc);
    app.handle_key_event(Key::Char('d'));
    assert_eq!(app.state(), AppState::SelectDifficulty { was_paused: true });
    app.handle_key_event(Key::Char('d'));
    assert!(app.paused());

    app.handle_key_event(Key::Char('d'));
    app.handle_key_event(Key::Enter);
    assert!(!app.paused());
}

#[test]
fn restart_key_resets() {
    let mut app = started();
    app.handle_key_event(Key::Esc);
    app.handle_key_event(Key::Char('r'));
    assert!(!app.paused());
    assert_eq!(app.game().snake(), vec![Pos::new(4, 4)]);
}

#[test]
fn achievement_record_and_loading() {
    let mut app = started();
    let rec = app.achivement("kim".to_string());
    assert_eq!(rec, Achivement { username: "kim".to_string(), difficulty: DifficultyKind::Normal, score: 0 });
    app.read_achivement(vec![rec.clone(), Achivement { username: "al".to_string(), difficulty: DifficultyKind::Hard, score: 2 }]);
    assert_eq!(app.achivements().len(), 2);
    assert_eq!(app.achivements_map().len(), 2);
    assert_eq!(app.achivements_map()[0].username, "kim");
}
