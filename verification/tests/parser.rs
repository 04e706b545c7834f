use holdem_eval::Hand;

#[test]
fn test_parser() {
    let cards = [2, 3, 5, 7, 11, 13, 17];
    let hand_from_vec = Hand::from_slice(&cards);
    let hand_from_str = "2h2s3d3s4s5d6d".parse::<Hand>();
    assert_eq!(hand_from_str, Ok(hand_from_vec));
    assert_eq!("".parse::<Hand>(), Ok(Hand::new()));
    assert_eq!(
        "A".parse::<Hand>(),
        Err("parse failed: expected suit character, but got EOF".into())
    );
    assert_eq!(
        "Ax".parse::<Hand>(),
        Err("parse failed: expected suit character, but got 'x'".into())
    );
    assert_eq!(
        "10s".parse::<Hand>(),
        Err("parse failed: expected rank character, but got '1'".into())
    );
}

#[test]
fn test_parser_case_insensitive() {
    assert_eq!("as".parse::<Hand>(), "AS".parse::<Hand>());
    assert_eq!("tc".parse::<Hand>(), "Tc".parse::<Hand>());
    assert_eq!("kdqh".parse::<Hand>(), "KdQh".parse::<Hand>());
}

#[test]
fn test_parser_lone_rank_error_beats_bad_rank() {
    // A lone trailing character reports the missing suit even when it is
    // not a valid rank character.
    assert_eq!(
        "x".parse::<Hand>(),
        Err("parse failed: expected suit character, but got EOF".into())
    );
}

#[test]
fn test_parser_round_trip_concrete() {
    // "2c" is card 0, "2d" card 1, "As" card 51.
    let parsed = "2c2dAs".parse::<Hand>().unwrap();
    let built = Hand::from_slice(&[0, 1, 51]);
    assert_eq!(parsed, built);
}
