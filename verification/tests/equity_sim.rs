use poker_core::cards::{Card, Rank, Suit};
use poker_core::equity::{estimate_win_probability, Equity, TRIAL_UNIT};

fn card(suit: Suit, rank: Rank) -> Card {
    Card { suit, rank }
}

fn all_ranks() -> Vec<Rank> {
    vec![
        Rank::Two,
        Rank::Three,
        Rank::Four,
        Rank::Five,
        Rank::Six,
        Rank::Seven,
        Rank::Eight,
        Rank::Nine,
        Rank::Ten,
        Rank::Jack,
        Rank::Queen,
        Rank::King,
        Rank::Ace,
    ]
}

fn all_suits() -> Vec<Suit> {
    vec![Suit::Hearts, Suit::Diamonds, Suit::Clubs, Suit::Spades]
}

/// The 52-card deck with the given cards removed.
fn deck_without(used: &[Card]) -> Vec<Card> {
    let mut deck = Vec::new();
    for s in all_suits() {
        for r in all_ranks() {
            let c = card(s, r);
            if !used.iter().any(|u| *u == c) {
                deck.push(c);
            }
        }
    }
    deck
}

#[test]
fn no_opponents_means_certain_win() {
    let hero = vec![card(Suit::Hearts, Rank::Two), card(Suit::Clubs, Rank::Seven)];
    let opponents: Vec<Vec<Card>> = Vec::new();
    let board = vec![card(Suit::Spades, Rank::King)];
    let deck = deck_without(&[hero[0], hero[1], board[0]]);
    let e = estimate_win_probability(&hero, &opponents, &board, &deck, 50);
    assert_eq!(e, Equity { num: 1, den: 1 });
}

#[test]
fn short_deck_falls_back_to_fair_split() {
    let hero = vec![card(Suit::Hearts, Rank::Ace), card(Suit::Clubs, Rank::Ace)];
    let opponents = vec![
        vec![card(Suit::Hearts, Rank::Two), card(Suit::Clubs, Rank::Two)],
        vec![card(Suit::Hearts, Rank::Three), card(Suit::Clubs, Rank::Three)],
    ];
    let board: Vec<Card> = Vec::new();
    // Four undealt cards cannot complete a 5-card board.
    let deck = vec![
        card(Suit::Spades, Rank::Nine),
        card(Suit::Spades, Rank::Eight),
        card(Suit::Spades, Rank::Seven),
        card(Suit::Spades, Rank::Six),
    ];
    let e = estimate_win_probability(&hero, &opponents, &board, &deck, 100);
    assert_eq!(e, Equity { num: 1, den: 3 });
}

#[test]
fn sampled_estimate_has_the_trial_denominator() {
    let hero = vec![card(Suit::Hearts, Rank::Ace), card(Suit::Clubs, Rank::Ace)];
    let opponents = vec![vec![card(Suit::Hearts, Rank::Two), card(Suit::Clubs, Rank::Two)]];
    let board: Vec<Card> = Vec::new();
    let deck = deck_without(&[hero[0], hero[1], opponents[0][0], opponents[0][1]]);
    let trials = 40;
    let e = estimate_win_probability(&hero, &opponents, &board, &deck, trials);
    assert_eq!(e.den, TRIAL_UNIT * trials as u64);
    assert!(e.num <= e.den);
}

#[test]
fn pocket_aces_dominate_pocket_twos_preflop() {
    let hero = vec![card(Suit::Hearts, Rank::Ace), card(Suit::Clubs, Rank::Ace)];
    let opponents = vec![vec![card(Suit::Hearts, Rank::Two), card(Suit::Clubs, Rank::Two)]];
    let board: Vec<Card> = Vec::new();
    let deck = deck_without(&[hero[0], hero[1], opponents[0][0], opponents[0][1]]);
    let e = estimate_win_probability(&hero, &opponents, &board, &deck, 1000);
    let p = e.num as f64 / e.den as f64;
    // Known equity is about 0.83 for aces against deuces heads-up; allow a
    // generous sampling tolerance at 1000 trials.
    assert!(p > 0.70, "aces estimated too weak: {p}");
    assert!(p < 0.95, "aces estimated too strong: {p}");

    let e2 = estimate_win_probability(&opponents[0], &vec![hero.clone()], &board, &deck, 1000);
    let p2 = e2.num as f64 / e2.den as f64;
    assert!(p2 < 0.30, "deuces estimated too strong: {p2}");
}
