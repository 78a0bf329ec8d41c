use scoreboard::input::{check_sentinel, clean_line, parse_winner_id};

#[test]
fn clean_line_trims_surrounding_whitespace() {
    assert_eq!(clean_line("  abc  "), Some("abc".to_string()));
    assert_eq!(clean_line("\tname\r\n"), Some("name".to_string()));
    assert_eq!(clean_line("no_trim"), Some("no_trim".to_string()));
    assert_eq!(clean_line("  a b  "), Some("a b".to_string()));
}

#[test]
fn clean_line_of_blank_input_is_empty() {
    assert_eq!(clean_line(""), Some("".to_string()));
    assert_eq!(clean_line("   \t \n"), Some("".to_string()));
}

#[test]
fn clean_line_rejects_long_input() {
    let fifty = "x".repeat(50);
    assert_eq!(clean_line(&fifty), Some(fifty.clone()));
    let fifty_one = "x".repeat(51);
    assert_eq!(clean_line(&fifty_one), None);
    // Surrounding whitespace does not count against the limit.
    let padded = format!("   {}   ", fifty);
    assert_eq!(clean_line(&padded), Some(fifty));
    // The limit counts codepoints, not bytes: 27 three-byte characters pass.
    let wide = "长".repeat(27);
    assert!(wide.len() > 50);
    assert_eq!(clean_line(&wide), Some(wide.clone()));
}

#[test]
fn sentinel_is_matched_case_insensitively() {
    assert!(check_sentinel("done"));
    assert!(check_sentinel("DONE"));
    assert!(check_sentinel("Done"));
    assert!(check_sentinel("dOnE"));
    assert!(!check_sentinel("dome"));
    assert!(!check_sentinel("done "));
    assert!(!check_sentinel("redone"));
    assert!(!check_sentinel(""));
}

#[test]
fn winner_id_token_must_be_a_bounded_positive_numeral() {
    assert_eq!(parse_winner_id("12"), Some(12));
    assert_eq!(parse_winner_id("1"), Some(1));
    assert_eq!(parse_winner_id("1000"), Some(1000));
    assert_eq!(parse_winner_id("007"), Some(7));
    assert_eq!(parse_winner_id("0"), None);
    assert_eq!(parse_winner_id(""), None);
    assert_eq!(parse_winner_id("12a"), None);
    assert_eq!(parse_winner_id("-3"), None);
    assert_eq!(parse_winner_id("1001"), None);
    assert_eq!(parse_winner_id("99999999999999999999"), None);
}
