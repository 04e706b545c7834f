use std::collections::HashSet;

use holdem_eval::{get_hand_category, Hand, HandCategory, NUMBER_OF_CARDS};

#[test]
fn test_all_5card_combinations() {
    let mut rankset = HashSet::new();
    let mut counter = vec![0; HandCategory::StraightFlush as usize + 1];

    for i in 0..(NUMBER_OF_CARDS - 4) {
        let hand = Hand::new().add_card(i);
        for j in (i + 1)..(NUMBER_OF_CARDS - 3) {
            let hand = hand.add_card(j);
            for k in (j + 1)..(NUMBER_OF_CARDS - 2) {
                let hand = hand.add_card(k);
                for m in (k + 1)..(NUMBER_OF_CARDS - 1) {
                    let hand = hand.add_card(m);
                    for n in (m + 1)..NUMBER_OF_CARDS {
                        let hand = hand.add_card(n);
                        let rank = hand.evaluate();
                        let category = get_hand_category(rank);
                        rankset.insert(rank);
                        counter[category as usize] += 1;
                    }
                }
            }
        }
    }

    assert_eq!(rankset.len(), 7462);
    assert_eq!(counter[HandCategory::StraightFlush as usize], 40);
    assert_eq!(counter[HandCategory::FourOfAKind as usize], 624);
    assert_eq!(counter[HandCategory::FullHouse as usize], 3744);
    assert_eq!(counter[HandCategory::Flush as usize], 5108);
    assert_eq!(counter[HandCategory::Straight as usize], 10200);
    assert_eq!(counter[HandCategory::ThreeOfAKind as usize], 54912);
    assert_eq!(counter[HandCategory::TwoPair as usize], 123552);
    assert_eq!(counter[HandCategory::OnePair as usize], 1098240);
    assert_eq!(counter[HandCategory::HighCard as usize], 1302540);
}

#[test]
fn test_all_6card_combinations() {
    let mut rankset = HashSet::new();
    let mut counter = vec![0; HandCategory::StraightFlush as usize + 1];

    for i in 0..(NUMBER_OF_CARDS - 5) {
        let hand = Hand::new().add_card(i);
        for j in (i + 1)..(NUMBER_OF_CARDS - 4) {
            let hand = hand.add_card(j);
            for k in (j + 1)..(NUMBER_OF_CARDS - 3) {
                let hand = hand.add_card(k);
                for m in (k + 1)..(NUMBER_OF_CARDS - 2) {
                    let hand = hand.add_card(m);
                    for n in (m + 1)..(NUMBER_OF_CARDS - 1) {
                        let hand = hand.add_card(n);
                        for p in (n + 1)..NUMBER_OF_CARDS {
                            let hand = hand.add_card(p);
                            let rank = hand.evaluate();
                            let category = get_hand_category(rank);
                            rankset.insert(rank);
                            counter[category as usize] += 1;
                        }
                    }
                }
            }
        }
    }

    assert_eq!(rankset.len(), 6075);
    assert_eq!(counter[HandCategory::StraightFlush as usize], 1844);
    assert_eq!(counter[HandCategory::FourOfAKind as usize], 14664);
    assert_eq!(counter[HandCategory::FullHouse as usize], 165984);
    assert_eq!(counter[HandCategory::Flush as usize], 205792);
    assert_eq!(counter[HandCategory::Straight as usize], 361620);
    assert_eq!(counter[HandCategory::ThreeOfAKind as usize], 732160);
    assert_eq!(counter[HandCategory::TwoPair as usize], 2532816);
    assert_eq!(counter[HandCategory::OnePair as usize], 9730740);
    assert_eq!(counter[HandCategory::HighCard as usize], 6612900);
}
