use holdem_eval::{get_hand_category, Hand, HandCategory};

fn evaluate_hand_str(hand_str: &str) -> u16 {
    let hand = hand_str.parse::<Hand>().unwrap();
    assert_eq!(hand.len(), 7);
    hand.evaluate()
}

#[test]
fn test_edge_cases() {
    // straight flushes
    assert_eq!(evaluate_hand_str("AsKsQsJsTs7d5s"), (8 << 12) + 9);
    assert_eq!(evaluate_hand_str("Ac7c6c5c4c3c2c"), (8 << 12) + 2);
    assert_eq!(evaluate_hand_str("AdQsJc5d4d3d2d"), (8 << 12) + 0);

    // four of a kinds
    assert_eq!(evaluate_hand_str("AsAcAhAdKsQcTh"), (7 << 12) + 155);
    assert_eq!(evaluate_hand_str("3d3h3s2c2d2h2s"), (7 << 12) + 0);

    // full houses
    assert_eq!(evaluate_hand_str("AsAdAhKcKdKh2d"), (6 << 12) + 155);
    assert_eq!(evaluate_hand_str("4h4c3s3c2d2c2h"), (6 << 12) + 1);
    assert_eq!(evaluate_hand_str("5h4c3s3c2d2c2h"), (6 << 12) + 0);

    // flushes
    assert_eq!(evaluate_hand_str("AhKhQhJh9h9c9s"), (5 << 12) + 1276);
    assert_eq!(evaluate_hand_str("Js7c6d5c4c3c2c"), (5 << 12) + 0);

    // straights
    assert_eq!(evaluate_hand_str("AhKcKdKhQcJdTs"), (4 << 12) + 9);
    assert_eq!(evaluate_hand_str("Ac8c7c5d4d3d2d"), (4 << 12) + 0);

    // three of a kinds
    assert_eq!(evaluate_hand_str("AsAcAhKhQd5c3s"), (3 << 12) + 857);
    assert_eq!(evaluate_hand_str("7d5c4c3c2d2s2h"), (3 << 12) + 8);

    // two pairs
    assert_eq!(evaluate_hand_str("AsAhKsKhQsQhJs"), (2 << 12) + 857);
    assert_eq!(evaluate_hand_str("7c6d5h3s3c2d2h"), (2 << 12) + 3);

    // one pairs
    assert_eq!(evaluate_hand_str("AdAsKhQdJs3s2c"), (1 << 12) + 2859);
    assert_eq!(evaluate_hand_str("8s7s5h4c3c2d2c"), (1 << 12) + 18);

    // high cards
    assert_eq!(evaluate_hand_str("AdKdQdJd9s3h2c"), (0 << 12) + 1276);
    assert_eq!(evaluate_hand_str("9h8s7d5d4d3c2d"), (0 << 12) + 48);
}

#[test]
fn test_hand_addition() {
    let hand1 = "4h4c".parse::<Hand>().unwrap();
    let hand2 = "5h4s".parse::<Hand>().unwrap();
    let board = "3s3c2d2c2h".parse::<Hand>().unwrap();
    assert_eq!((hand1 + board).evaluate(), (6 << 12) + 1);
    assert_eq!((hand2 + board).evaluate(), (6 << 12) + 0);
}

#[test]
fn test_merge_is_commutative_and_associative() {
    let a = "AsKs".parse::<Hand>().unwrap();
    let b = "QdJd".parse::<Hand>().unwrap();
    let c = "7c5h2s".parse::<Hand>().unwrap();
    assert_eq!(a + b, b + a);
    assert_eq!((a + b) + c, a + (b + c));
    assert_eq!(a.merge(b), a + b);
}

#[test]
fn test_categories_of_rank_codes() {
    assert_eq!(
        get_hand_category(evaluate_hand_str("AsKsQsJsTs7d5s")),
        HandCategory::StraightFlush
    );
    assert_eq!(
        get_hand_category(evaluate_hand_str("3d3h3s2c2d2h2s")),
        HandCategory::FourOfAKind
    );
    assert_eq!(
        get_hand_category(evaluate_hand_str("5h4c3s3c2d2c2h")),
        HandCategory::FullHouse
    );
    assert_eq!(
        get_hand_category(evaluate_hand_str("AhKhQhJh9h9c9s")),
        HandCategory::Flush
    );
    assert_eq!(
        get_hand_category(evaluate_hand_str("AhKcKdKhQcJdTs")),
        HandCategory::Straight
    );
    assert_eq!(
        get_hand_category(evaluate_hand_str("AsAcAhKhQd5c3s")),
        HandCategory::ThreeOfAKind
    );
    assert_eq!(
        get_hand_category(evaluate_hand_str("AsAhKsKhQsQhJs")),
        HandCategory::TwoPair
    );
    assert_eq!(
        get_hand_category(evaluate_hand_str("AdAsKhQdJs3s2c")),
        HandCategory::OnePair
    );
    assert_eq!(
        get_hand_category(evaluate_hand_str("9h8s7d5d4d3c2d")),
        HandCategory::HighCard
    );
}

#[test]
fn test_stronger_hand_gets_larger_code() {
    // A straight flush beats quads, quads beat a full house, and so on
    // down to a high card; the codes must order the same way.
    let ranks = [
        evaluate_hand_str("9h8s7d5d4d3c2d"),  // high card
        evaluate_hand_str("8s7s5h4c3c2d2c"),  // one pair
        evaluate_hand_str("7c6d5h3s3c2d2h"),  // two pair
        evaluate_hand_str("7d5c4c3c2d2s2h"),  // three of a kind
        evaluate_hand_str("Ac8c7c5d4d3d2d"),  // straight
        evaluate_hand_str("Js7c6d5c4c3c2c"),  // flush
        evaluate_hand_str("5h4c3s3c2d2c2h"),  // full house
        evaluate_hand_str("3d3h3s2c2d2h2s"),  // four of a kind
        evaluate_hand_str("AdQsJc5d4d3d2d"),  // straight flush
    ];
    for w in ranks.windows(2) {
        assert!(w[0] < w[1]);
    }
}

#[test]
fn test_accumulator_queries() {
    let empty = Hand::new();
    assert!(empty.is_empty());
    assert_eq!(empty.len(), 0);
    assert_eq!(empty.get_mask(), 0);
    assert_eq!(Hand::default(), empty);

    let hand = empty.add_card(0).add_card(17).add_card(51);
    assert!(!hand.is_empty());
    assert_eq!(hand.len(), 3);
    assert!(hand.contains(0));
    assert!(hand.contains(17));
    assert!(hand.contains(51));
    assert!(!hand.contains(1));

    let removed = hand.remove_card(17);
    assert_eq!(removed.len(), 2);
    assert!(!removed.contains(17));
    assert_eq!(removed, empty.add_card(0).add_card(51));
}
