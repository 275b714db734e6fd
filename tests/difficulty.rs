use snaks::{dur2fps, fps, Difficulty, DifficultyFps, DifficultyKind};

#[test]
fn tick_lengths() {
    assert_eq!(fps(20), 50_000);
    assert_eq!(fps(60), 16_666);
    assert_eq!(dur2fps(50_000), 20);
    assert_eq!(dur2fps(fps(60)), 60);
    assert_eq!(dur2fps(fps(30)), 30);
}

#[test]
fn difficulty_rates() {
    assert_eq!(DifficultyKind::Easy.to_fps().duration(), 200_000);
    assert_eq!(DifficultyKind::Normal.to_fps().duration(), 100_000);
    assert_eq!(DifficultyKind::Medium.to_fps().duration(), 66_666);
    assert_eq!(DifficultyKind::Hard.to_fps().duration(), 33_333);
    assert_eq!(DifficultyKind::Impossible.to_fps().duration(), 16_666);
    assert_eq!(DifficultyKind::Secret.to_fps().duration(), 10_000);
    assert_eq!(DifficultyFps::default().duration(), 100_000);
}

#[test]
fn selector_cycles() {
    let mut k = DifficultyKind::Easy;
    let mut seen = vec![];
    for _ in 0..5 {
        seen.push(k);
        k = k.next();
    }
    assert_eq!(k, DifficultyKind::Easy);
    assert_eq!(
        seen,
        vec![
            DifficultyKind::Easy,
            DifficultyKind::Normal,
            DifficultyKind::Medium,
            DifficultyKind::Hard,
            DifficultyKind::Impossible
        ]
    );
    for d in seen {
        assert_eq!(d.next().prev(), d);
    }
    assert_eq!(DifficultyKind::Secret.next(), DifficultyKind::Easy);
    assert_eq!(DifficultyKind::Secret.prev(), DifficultyKind::Impossible);
    assert_eq!(DifficultyKind::Easy.prev(), DifficultyKind::Impossible);
}

#[test]
fn names_and_parsing() {
    assert_eq!(DifficultyKind::Impossible.name(), "Impossible");
    assert_eq!(DifficultyKind::Impossible.key(), "impossible");
    assert_eq!(DifficultyKind::from_str("EASY"), Ok(DifficultyKind::Easy));
    assert_eq!(DifficultyKind::from_str("Secret"), Ok(DifficultyKind::Secret));
    assert_eq!(DifficultyKind::from_str("hard"), Ok(DifficultyKind::Hard));
    assert_eq!(DifficultyKind::from_str("harder"), Err("unknown difficulty"));
    assert_eq!(DifficultyKind::from_key("Hard"), None);
    assert_eq!(DifficultyKind::from_key("medium"), Some(DifficultyKind::Medium));
}

#[test]
fn update_fps_follows_kind() {
    let mut d = Difficulty::default();
    assert_eq!(d.kind, DifficultyKind::Normal);
    d.kind = DifficultyKind::Hard;
    d.update_fps();
    assert_eq!(d.fps.duration(), 33_333);
    assert_eq!(d.prev, DifficultyKind::Normal);
}
