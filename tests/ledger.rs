use snaks::{
    achivements2map, achivements_csv, parse_achivements, save_achivement, sort_achivements,
    split_at_char, Achivement, AchivementError, DifficultyKind,
};

fn a(user: &str, d: DifficultyKind, score: usize) -> Achivement {
    Achivement { username: user.to_string(), difficulty: d, score }
}

#[test]
fn save_into_empty_ledger() {
    let r = save_achivement(&[], a("bob", DifficultyKind::Hard, 12)).unwrap();
    let (list, text) = r.unwrap();
    assert_eq!(list, vec![a("bob", DifficultyKind::Hard, 12)]);
    assert_eq!(text, "username,difficulty,score\nbob,hard,12\n");
}

#[test]
fn save_keeps_a_better_score() {
    let ledger = vec![a("bob", DifficultyKind::Hard, 12)];
    assert_eq!(save_achivement(&ledger, a("bob", DifficultyKind::Hard, 12)), Ok(None));
    assert_eq!(save_achivement(&ledger, a("bob", DifficultyKind::Hard, 3)), Ok(None));
}

#[test]
fn save_replaces_and_sorts() {
    let ledger = vec![
        a("zoe", DifficultyKind::Easy, 1),
        a("bob", DifficultyKind::Hard, 12),
        a("bob", DifficultyKind::Easy, 40),
    ];
    let (list, text) = save_achivement(&ledger, a("bob", DifficultyKind::Hard, 20)).unwrap().unwrap();
    assert_eq!(
        list,
        vec![
            a("bob", DifficultyKind::Easy, 40),
            a("bob", DifficultyKind::Hard, 20),
            a("zoe", DifficultyKind::Easy, 1),
        ]
    );
    assert_eq!(text, "username,difficulty,score\nbob,easy,40\nbob,hard,20\nzoe,easy,1\n");
    let (list, _) = save_achivement(&ledger, a("amy", DifficultyKind::Secret, 7)).unwrap().unwrap();
    assert_eq!(list.len(), 4);
    assert_eq!(list[0], a("amy", DifficultyKind::Secret, 7));
}

#[test]
fn save_rejects_separator_in_name() {
    let r = save_achivement(&[], a("b,ob", DifficultyKind::Hard, 1));
    assert_eq!(r, Err(AchivementError::SeparatorInUsername));
    assert_eq!(r.unwrap_err().message(), "username cannot contain ,");
}

#[test]
fn sorting_orders_by_name_then_difficulty() {
    let list = vec![
        a("b", DifficultyKind::Secret, 1),
        a("ab", DifficultyKind::Easy, 2),
        a("b", DifficultyKind::Easy, 3),
        a("a", DifficultyKind::Hard, 4),
        a("B", DifficultyKind::Hard, 5),
    ];
    let sorted = sort_achivements(list);
    let keys: Vec<(String, DifficultyKind)> =
        sorted.iter().map(|x| (x.username.clone(), x.difficulty)).collect();
    assert_eq!(
        keys,
        vec![
            ("B".to_string(), DifficultyKind::Hard),
            ("a".to_string(), DifficultyKind::Hard),
            ("ab".to_string(), DifficultyKind::Easy),
            ("b".to_string(), DifficultyKind::Easy),
            ("b".to_string(), DifficultyKind::Secret),
        ]
    );
}

#[test]
fn csv_text_of_numbers() {
    let t = achivements_csv(&[a("x", DifficultyKind::Medium, 0), a("y", DifficultyKind::Normal, 1005)])
        .unwrap();
    assert_eq!(t, "username,difficulty,score\nx,medium,0\ny,normal,1005\n");
}

#[test]
fn parse_ledger_text() {
    let text = "username,difficulty,score\nbob, Hard ,12\r\n alice ,easy,+3\n";
    let list = parse_achivements(text).unwrap();
    assert_eq!(list, vec![a("bob", DifficultyKind::Hard, 12), a("alice", DifficultyKind::Easy, 3)]);
    assert_eq!(parse_achivements("").unwrap(), vec![]);
    assert_eq!(parse_achivements("username,difficulty,score\n").unwrap(), vec![]);
    assert_eq!(
        parse_achivements("h\nbob,secret,9").unwrap(),
        vec![a("bob", DifficultyKind::Secret, 9)]
    );
}

#[test]
fn parse_ledger_errors() {
    assert_eq!(parse_achivements("h\nbob,hard\n"), Err(AchivementError::FieldCount));
    assert_eq!(parse_achivements("h\nbob,hard,1,2\n"), Err(AchivementError::FieldCount));
    assert_eq!(parse_achivements("h\nbob,tough,1\n"), Err(AchivementError::InvalidDifficulty));
    assert_eq!(parse_achivements("h\nbob,hard,-1\n"), Err(AchivementError::InvalidScore));
    assert_eq!(parse_achivements("h\nbob,hard,\n"), Err(AchivementError::InvalidScore));
    assert_eq!(
        parse_achivements("h\nbob,hard,99999999999999999999999\n"),
        Err(AchivementError::InvalidScore)
    );
    assert_eq!(
        parse_achivements("h\nbob,hard,x\nann,tough,1\n"),
        Err(AchivementError::InvalidScore)
    );
}

#[test]
fn round_trip_through_text() {
    let (list, text) = save_achivement(
        &[a("kim", DifficultyKind::Impossible, 77)],
        a("al", DifficultyKind::Normal, 5),
    )
    .unwrap()
    .unwrap();
    assert_eq!(parse_achivements(&text).unwrap(), list);
}

#[test]
fn split_keeps_empty_pieces() {
    assert_eq!(split_at_char("a,,b,", ','), vec!["a", "", "b", ""]);
    assert_eq!(split_at_char("", ','), vec![""]);
}

#[test]
fn grouping_by_user() {
    let list = vec![
        a("bob", DifficultyKind::Hard, 12),
        a("amy", DifficultyKind::Easy, 1),
        a("bob", DifficultyKind::Easy, 40),
    ];
    let groups = achivements2map(&list);
    assert_eq!(groups.len(), 2);
    assert_eq!(groups[0].username, "bob");
    assert_eq!(
        groups[0].achivements,
        vec![a("bob", DifficultyKind::Hard, 12), a("bob", DifficultyKind::Easy, 40)]
    );
    assert_eq!(groups[1].username, "amy");
    assert_eq!(groups[1].achivements, vec![a("amy", DifficultyKind::Easy, 1)]);
    assert!(achivements2map(&[]).is_empty());
}

#[test]
fn record_from_fields() {
    assert_eq!(
        snaks::record_of("bob".to_string(), "HARD", "7"),
        Ok(a("bob", DifficultyKind::Hard, 7))
    );
    assert_eq!(
        snaks::record_of("bob".to_string(), "x", "7"),
        Err(AchivementError::InvalidDifficulty)
    );
    assert_eq!(
        snaks::record_of("bob".to_string(), "hard", "7x"),
        Err(AchivementError::InvalidScore)
    );
}

#[test]
fn parse_trims_unicode_white_space() {
    let text = "h\n\u{3000}kim\u{a0},\teasy ,\u{2003}4\u{85}\n";
    assert_eq!(parse_achivements(text).unwrap(), vec![a("kim", DifficultyKind::Easy, 4)]);
}
