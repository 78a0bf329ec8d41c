use scoreboard::board::{LookupError, Scoreboard, ValidationError};

#[test]
fn test_add_player_validation() {
    let mut scoreboard = Scoreboard::new();

    assert!(scoreboard.add_player("".to_string()).is_err());

    let long_name = "a".repeat(25);
    assert!(scoreboard.add_player(long_name).is_err());

    assert!(scoreboard.add_player("test\n".to_string()).is_err());
    assert!(scoreboard.add_player("test\t".to_string()).is_err());

    assert!(scoreboard.add_player("张三".to_string()).is_ok());

    assert!(scoreboard.add_player("张三".to_string()).is_err());
}

#[test]
fn test_update_scores() {
    let mut scoreboard = Scoreboard::new();
    let id1 = scoreboard.add_player("玩家1".to_string()).unwrap();
    let id2 = scoreboard.add_player("玩家2".to_string()).unwrap();

    assert!(scoreboard.update_scores(999).is_err());

    assert!(scoreboard.update_scores(id1).is_ok());
    let snapshot = scoreboard.snapshot_ordered_by_id();
    assert_eq!(snapshot[id1 - 1].2, 1);
    assert_eq!(snapshot[id2 - 1].2, -1);
}

#[test]
fn test_input_length_validation() {
    let test_input = "a".repeat(60);
    assert!(test_input.len() > 50);

    let mut scoreboard = Scoreboard::new();
    let long_name = "很长的玩家名称".repeat(5);
    assert!(scoreboard.add_player(long_name).is_err());
}

#[test]
fn empty_and_blank_names_are_rejected() {
    let mut board = Scoreboard::new();
    assert_eq!(board.add_player("".to_string()), Err(ValidationError::EmptyName));
    assert_eq!(board.add_player("   ".to_string()), Err(ValidationError::EmptyName));
    assert_eq!(board.add_player("\u{a0}\u{3000}".to_string()), Err(ValidationError::EmptyName));
    assert_eq!(board.player_count(), 0);
}

#[test]
fn names_over_twenty_codepoints_are_rejected() {
    let mut board = Scoreboard::new();
    let twenty_one = "b".repeat(21);
    assert_eq!(board.add_player(twenty_one), Err(ValidationError::NameTooLong));
    // 7 codepoints, 21 bytes: the limit counts codepoints, so this fits.
    let wide = "很长的玩家名称".to_string();
    assert_eq!(wide.len(), 21);
    assert_eq!(board.add_player(wide), Ok(1));
    let twenty = "c".repeat(20);
    assert_eq!(board.add_player(twenty), Ok(2));
}

#[test]
fn control_characters_are_rejected() {
    let mut board = Scoreboard::new();
    assert_eq!(board.add_player("a\n".to_string()), Err(ValidationError::InvalidCharacters));
    assert_eq!(board.add_player("a\t".to_string()), Err(ValidationError::InvalidCharacters));
    assert_eq!(board.add_player("a\r".to_string()), Err(ValidationError::InvalidCharacters));
    assert_eq!(board.add_player("a\u{7f}b".to_string()), Err(ValidationError::InvalidCharacters));
    assert_eq!(board.player_count(), 0);
}

#[test]
fn duplicate_name_keeps_registry_size() {
    let mut board = Scoreboard::new();
    assert_eq!(board.add_player("Ada".to_string()), Ok(1));
    assert_eq!(board.add_player("Ada".to_string()), Err(ValidationError::DuplicateName));
    assert_eq!(board.player_count(), 1);
    // Case matters: a differently-cased name is a new player.
    assert_eq!(board.add_player("ada".to_string()), Ok(2));
}

#[test]
fn failed_registrations_do_not_consume_ids() {
    let mut board = Scoreboard::new();
    assert_eq!(board.add_player("A".to_string()), Ok(1));
    assert!(board.add_player("".to_string()).is_err());
    assert!(board.add_player("A".to_string()).is_err());
    assert_eq!(board.add_player("B".to_string()), Ok(2));
    assert!(board.add_player("b\n".to_string()).is_err());
    assert_eq!(board.add_player("C".to_string()), Ok(3));
}

#[test]
fn unknown_winner_leaves_scores_unchanged() {
    let mut board = Scoreboard::new();
    board.add_player("Ann".to_string()).unwrap();
    board.add_player("Ben".to_string()).unwrap();
    board.update_scores(1).unwrap();
    let before = board.snapshot_ordered_by_id();
    assert_eq!(board.update_scores(999), Err(LookupError::UnknownPlayer));
    assert_eq!(board.update_scores(0), Err(LookupError::UnknownPlayer));
    assert_eq!(board.snapshot_ordered_by_id(), before);
}

#[test]
fn recording_a_result_moves_every_score() {
    let mut board = Scoreboard::new();
    let winner = board.add_player("Ann".to_string()).unwrap();
    board.add_player("Ben".to_string()).unwrap();
    board.add_player("Cal".to_string()).unwrap();
    board.update_scores(winner).unwrap();
    let snapshot = board.snapshot_ordered_by_id();
    assert_eq!(snapshot[0].2, 1);
    assert_eq!(snapshot[1].2, -1);
    assert_eq!(snapshot[2].2, -1);
}

#[test]
fn two_wins_in_a_row_double_the_movement() {
    let mut board = Scoreboard::new();
    let winner = board.add_player("Ann".to_string()).unwrap();
    board.add_player("Ben".to_string()).unwrap();
    board.add_player("Cal".to_string()).unwrap();
    board.update_scores(winner).unwrap();
    board.update_scores(winner).unwrap();
    let snapshot = board.snapshot_ordered_by_id();
    assert_eq!(snapshot[0].2, 2);
    assert_eq!(snapshot[1].2, -2);
    assert_eq!(snapshot[2].2, -2);
}

#[test]
fn snapshot_is_ordered_by_id_and_counts_successes() {
    let mut board = Scoreboard::new();
    board.add_player("Zoe".to_string()).unwrap();
    board.add_player("Amy".to_string()).unwrap();
    board.add_player("Mia".to_string()).unwrap();
    assert!(board.add_player("Amy".to_string()).is_err());
    // Make insertion order, name order and score order all disagree.
    board.update_scores(2).unwrap();
    let snapshot = board.snapshot_ordered_by_id();
    assert_eq!(snapshot.len(), 3);
    let ids: Vec<usize> = snapshot.iter().map(|e| e.0).collect();
    assert_eq!(ids, vec![1, 2, 3]);
    assert_eq!(snapshot[0].1, "Zoe");
    assert_eq!(snapshot[1].1, "Amy");
    assert_eq!(snapshot[2].1, "Mia");
    assert_eq!(snapshot[0].2, -1);
    assert_eq!(snapshot[1].2, 1);
    assert_eq!(snapshot[2].2, -1);
}

#[test]
fn repeated_reads_return_identical_sequences() {
    let mut board = Scoreboard::new();
    board.add_player("Ann".to_string()).unwrap();
    board.add_player("Ben".to_string()).unwrap();
    board.update_scores(1).unwrap();
    assert_eq!(board.snapshot_ordered_by_id(), board.snapshot_ordered_by_id());
    assert_eq!(board.snapshot_names_ordered_by_id(), board.snapshot_names_ordered_by_id());
}

#[test]
fn name_listing_carries_ids_and_names_in_order() {
    let mut board = Scoreboard::new();
    board.add_player("one".to_string()).unwrap();
    board.add_player("two".to_string()).unwrap();
    let listing = board.snapshot_names_ordered_by_id();
    assert_eq!(listing.len(), 2);
    assert_eq!(listing[0], (1, "one".to_string()));
    assert_eq!(listing[1], (2, "two".to_string()));
}

#[test]
fn scores_may_go_negative_and_recover() {
    let mut board = Scoreboard::new();
    board.add_player("Ann".to_string()).unwrap();
    board.add_player("Ben".to_string()).unwrap();
    board.update_scores(2).unwrap();
    board.update_scores(2).unwrap();
    board.update_scores(1).unwrap();
    let snapshot = board.snapshot_ordered_by_id();
    assert_eq!(snapshot[0].2, -1);
    assert_eq!(snapshot[1].2, 1);
}
