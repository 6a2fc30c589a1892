use poker_core::cards::{Card, Rank, Suit};
use poker_core::combos::{combinations, evaluate_best_hand};
use poker_core::evaluator::evaluate_hand;
use poker_core::hand::HandType;

fn card(suit: Suit, rank: Rank) -> Card {
    Card { suit, rank }
}

#[test]
fn card_values_run_from_two_to_fourteen() {
    let ranks = [
        Rank::Two,
        Rank::Three,
        Rank::Four,
        Rank::Five,
        Rank::Six,
        Rank::Seven,
        Rank::Eight,
        Rank::Nine,
        Rank::Ten,
        Rank::Jack,
        Rank::Queen,
        Rank::King,
        Rank::Ace,
    ];
    for (i, r) in ranks.iter().enumerate() {
        let c = card(Suit::Clubs, *r);
        assert_eq!(c.value() as usize, i + 2);
    }
}

#[test]
fn high_card_is_classified_with_sorted_values() {
    let cards = vec![
        card(Suit::Hearts, Rank::Two),
        card(Suit::Diamonds, Rank::Nine),
        card(Suit::Clubs, Rank::King),
        card(Suit::Spades, Rank::Four),
        card(Suit::Hearts, Rank::Seven),
    ];
    let h = evaluate_hand(&cards);
    assert_eq!(h.hand_type, HandType::HighCard);
    assert_eq!(h.values, vec![13, 9, 7, 4, 2]);
}

#[test]
fn pair_is_classified() {
    let cards = vec![
        card(Suit::Hearts, Rank::Nine),
        card(Suit::Diamonds, Rank::Nine),
        card(Suit::Clubs, Rank::King),
        card(Suit::Spades, Rank::Four),
        card(Suit::Hearts, Rank::Seven),
    ];
    let h = evaluate_hand(&cards);
    assert_eq!(h.hand_type, HandType::Pair);
    assert_eq!(h.values, vec![13, 9, 9, 7, 4]);
}

#[test]
fn two_pair_is_classified() {
    let cards = vec![
        card(Suit::Hearts, Rank::Nine),
        card(Suit::Diamonds, Rank::Nine),
        card(Suit::Clubs, Rank::Four),
        card(Suit::Spades, Rank::Four),
        card(Suit::Hearts, Rank::Seven),
    ];
    let h = evaluate_hand(&cards);
    assert_eq!(h.hand_type, HandType::TwoPair);
}

#[test]
fn three_of_a_kind_is_classified() {
    let cards = vec![
        card(Suit::Hearts, Rank::Nine),
        card(Suit::Diamonds, Rank::Nine),
        card(Suit::Clubs, Rank::Nine),
        card(Suit::Spades, Rank::Four),
        card(Suit::Hearts, Rank::Seven),
    ];
    assert_eq!(evaluate_hand(&cards).hand_type, HandType::ThreeOfAKind);
}

#[test]
fn straight_is_classified() {
    let cards = vec![
        card(Suit::Hearts, Rank::Nine),
        card(Suit::Diamonds, Rank::Eight),
        card(Suit::Clubs, Rank::Seven),
        card(Suit::Spades, Rank::Six),
        card(Suit::Hearts, Rank::Five),
    ];
    let h = evaluate_hand(&cards);
    assert_eq!(h.hand_type, HandType::Straight);
    assert_eq!(h.values, vec![9, 8, 7, 6, 5]);
}

#[test]
fn flush_is_classified() {
    let cards = vec![
        card(Suit::Spades, Rank::Nine),
        card(Suit::Spades, Rank::Two),
        card(Suit::Spades, Rank::King),
        card(Suit::Spades, Rank::Six),
        card(Suit::Spades, Rank::Five),
    ];
    assert_eq!(evaluate_hand(&cards).hand_type, HandType::Flush);
}

#[test]
fn full_house_is_classified() {
    let cards = vec![
        card(Suit::Hearts, Rank::Nine),
        card(Suit::Diamonds, Rank::Nine),
        card(Suit::Clubs, Rank::Nine),
        card(Suit::Spades, Rank::Four),
        card(Suit::Hearts, Rank::Four),
    ];
    assert_eq!(evaluate_hand(&cards).hand_type, HandType::FullHouse);
}

#[test]
fn four_of_a_kind_is_classified() {
    let cards = vec![
        card(Suit::Hearts, Rank::Nine),
        card(Suit::Diamonds, Rank::Nine),
        card(Suit::Clubs, Rank::Nine),
        card(Suit::Spades, Rank::Nine),
        card(Suit::Hearts, Rank::Four),
    ];
    assert_eq!(evaluate_hand(&cards).hand_type, HandType::FourOfAKind);
}

#[test]
fn straight_flush_is_classified() {
    let cards = vec![
        card(Suit::Hearts, Rank::Nine),
        card(Suit::Hearts, Rank::Eight),
        card(Suit::Hearts, Rank::Seven),
        card(Suit::Hearts, Rank::Six),
        card(Suit::Hearts, Rank::Five),
    ];
    assert_eq!(evaluate_hand(&cards).hand_type, HandType::StraightFlush);
}

#[test]
fn wheel_is_a_straight_below_the_six_high_straight() {
    let wheel = vec![
        card(Suit::Hearts, Rank::Ace),
        card(Suit::Diamonds, Rank::Five),
        card(Suit::Clubs, Rank::Four),
        card(Suit::Spades, Rank::Three),
        card(Suit::Hearts, Rank::Two),
    ];
    let w = evaluate_hand(&wheel);
    assert_eq!(w.hand_type, HandType::Straight);
    assert_eq!(w.values, vec![5, 4, 3, 2, 1]);

    let six_high = vec![
        card(Suit::Hearts, Rank::Six),
        card(Suit::Diamonds, Rank::Five),
        card(Suit::Clubs, Rank::Four),
        card(Suit::Spades, Rank::Three),
        card(Suit::Clubs, Rank::Two),
    ];
    let s = evaluate_hand(&six_high);
    assert_eq!(s.hand_type, HandType::Straight);
    assert!(w.le(&s));
    assert!(!s.le(&w));
}

#[test]
fn evaluation_is_invariant_under_reordering() {
    let a = card(Suit::Hearts, Rank::Nine);
    let b = card(Suit::Diamonds, Rank::Nine);
    let c = card(Suit::Clubs, Rank::King);
    let d = card(Suit::Spades, Rank::Four);
    let e = card(Suit::Hearts, Rank::Seven);
    let orders = vec![
        vec![a, b, c, d, e],
        vec![e, d, c, b, a],
        vec![c, a, e, b, d],
        vec![d, e, a, c, b],
        vec![b, c, d, e, a],
    ];
    let reference = evaluate_hand(&orders[0]);
    for o in &orders {
        let h = evaluate_hand(o);
        assert_eq!(h, reference);
    }
}

#[test]
fn categories_order_by_rank_regardless_of_values() {
    let high_card = evaluate_hand(&vec![
        card(Suit::Hearts, Rank::Ace),
        card(Suit::Diamonds, Rank::King),
        card(Suit::Clubs, Rank::Queen),
        card(Suit::Spades, Rank::Jack),
        card(Suit::Hearts, Rank::Nine),
    ]);
    let pair = evaluate_hand(&vec![
        card(Suit::Hearts, Rank::Two),
        card(Suit::Diamonds, Rank::Two),
        card(Suit::Clubs, Rank::Three),
        card(Suit::Spades, Rank::Four),
        card(Suit::Hearts, Rank::Five),
    ]);
    let four = evaluate_hand(&vec![
        card(Suit::Hearts, Rank::Two),
        card(Suit::Diamonds, Rank::Two),
        card(Suit::Clubs, Rank::Two),
        card(Suit::Spades, Rank::Two),
        card(Suit::Hearts, Rank::Five),
    ]);
    let straight_flush = evaluate_hand(&vec![
        card(Suit::Hearts, Rank::Six),
        card(Suit::Hearts, Rank::Five),
        card(Suit::Hearts, Rank::Four),
        card(Suit::Hearts, Rank::Three),
        card(Suit::Hearts, Rank::Two),
    ]);
    // An ace-high high card still loses to the lowest pair, and the lowest
    // straight flush still beats four twos.
    assert!(high_card.le(&pair) && !pair.le(&high_card));
    assert!(four.le(&straight_flush) && !straight_flush.le(&four));
    assert!(pair.le(&four) && !four.le(&pair));
}

#[test]
fn combinations_enumerates_all_subsets() {
    let mut cards = Vec::new();
    let ranks = [Rank::Two, Rank::Five, Rank::Seven, Rank::Nine, Rank::Jack, Rank::King, Rank::Ace];
    for r in ranks.iter() {
        cards.push(card(Suit::Clubs, *r));
    }
    assert_eq!(combinations(&cards, 5).len(), 21);
    cards.pop();
    assert_eq!(combinations(&cards, 5).len(), 6);
    cards.pop();
    assert_eq!(combinations(&cards, 5).len(), 1);
    assert_eq!(combinations(&cards, 6).len(), 0);
    // k == 0 yields exactly one combination: the empty one.
    let none = combinations(&cards, 0);
    assert_eq!(none.len(), 1);
    assert_eq!(none[0].len(), 0);
}

#[test]
fn best_hand_dominates_every_five_card_subset() {
    let cards = vec![
        card(Suit::Hearts, Rank::Nine),
        card(Suit::Hearts, Rank::Eight),
        card(Suit::Clubs, Rank::Nine),
        card(Suit::Diamonds, Rank::Nine),
        card(Suit::Hearts, Rank::Two),
        card(Suit::Spades, Rank::Nine),
        card(Suit::Hearts, Rank::King),
    ];
    let best = evaluate_best_hand(&cards);
    assert_eq!(best.hand_type, HandType::FourOfAKind);
    let mut attained = false;
    for combo in combinations(&cards, 5) {
        let h = evaluate_hand(&combo);
        assert!(h.le(&best));
        if best.le(&h) {
            attained = true;
        }
    }
    assert!(attained);
}

#[test]
fn best_hand_of_exactly_five_cards_is_their_evaluation() {
    let cards = vec![
        card(Suit::Hearts, Rank::Nine),
        card(Suit::Diamonds, Rank::Eight),
        card(Suit::Clubs, Rank::Seven),
        card(Suit::Spades, Rank::Six),
        card(Suit::Hearts, Rank::Five),
    ];
    let best = evaluate_best_hand(&cards);
    let direct = evaluate_hand(&cards);
    assert_eq!(best, direct);
}
