//! Card model: suits, ranks, cards, and the ordered 52-card deck.

use vstd::prelude::*;

verus! {

/// One of the four French suits. Suits have no ordering semantics beyond
/// equality; they only matter for flush detection.
#[derive(Debug, Clone, Copy, PartialEq, Eq, PartialOrd, Ord, Hash, Structural)]
pub enum Suit {
    Hearts,
    Diamonds,
    Clubs,
    Spades,
}

/// Card rank, Two through Ace, totally ordered by its numeric value 2-14.
#[derive(Debug, Clone, Copy, PartialEq, Eq, PartialOrd, Ord, Hash, Structural)]
pub enum Rank {
    Two,
    Three,
    Four,
    Five,
    Six,
    Seven,
    Eight,
    Nine,
    Ten,
    Jack,
    Queen,
    King,
    Ace,
}

/// An immutable, freely copyable playing card.
#[derive(Debug, Clone, Copy, PartialEq, Eq, Structural)]
pub struct Card {
    pub suit: Suit,
    pub rank: Rank,
}

/// The numeric comparison value of a rank: Two is 2, ..., Ace is 14.
pub open spec fn card_value(c: Card) -> u8 {
    match c.rank {
        Rank::Two => 2,
        Rank::Three => 3,
        Rank::Four => 4,
        Rank::Five => 5,
        Rank::Six => 6,
        Rank::Seven => 7,
        Rank::Eight => 8,
        Rank::Nine => 9,
        Rank::Ten => 10,
        Rank::Jack => 11,
        Rank::Queen => 12,
        Rank::King => 13,
        Rank::Ace => 14,
    }
}

/// Index of a suit in the deck-generation order.
pub open spec fn suit_idx(s: Suit) -> int {
    match s {
        Suit::Hearts => 0,
        Suit::Diamonds => 1,
        Suit::Clubs => 2,
        Suit::Spades => 3,
    }
}

/// Index of a rank in the deck-generation order.
pub open spec fn rank_idx(r: Rank) -> int {
    match r {
        Rank::Two => 0,
        Rank::Three => 1,
        Rank::Four => 2,
        Rank::Five => 3,
        Rank::Six => 4,
        Rank::Seven => 5,
        Rank::Eight => 6,
        Rank::Nine => 7,
        Rank::Ten => 8,
        Rank::Jack => 9,
        Rank::Queen => 10,
        Rank::King => 11,
        Rank::Ace => 12,
    }
}

/// Position of a card in the ordered 52-card deck; injective over cards.
pub open spec fn card_code(c: Card) -> int {
    suit_idx(c.suit) * 13 + rank_idx(c.rank)
}

impl Card {
    /// The card's comparison value (2-14); suit never contributes.
    pub fn value(&self) -> (v: u8)
        ensures
            v == card_value(*self),
    {
        match self.rank {
            Rank::Two => 2,
            Rank::Three => 3,
            Rank::Four => 4,
            Rank::Five => 5,
            Rank::Six => 6,
            Rank::Seven => 7,
            Rank::Eight => 8,
            Rank::Nine => 9,
            Rank::Ten => 10,
            Rank::Jack => 11,
            Rank::Queen => 12,
            Rank::King => 13,
            Rank::Ace => 14,
        }
    }
}

fn suit_of(i: usize) -> (s: Suit)
    requires
        i < 4,
    ensures
        suit_idx(s) == i,
{
    if i == 0 {
        Suit::Hearts
    } else if i == 1 {
        Suit::Diamonds
    } else if i == 2 {
        Suit::Clubs
    } else {
        Suit::Spades
    }
}

fn rank_of(i: usize) -> (r: Rank)
    requires
        i < 13,
    ensures
        rank_idx(r) == i,
{
    if i == 0 {
        Rank::Two
    } else if i == 1 {
        Rank::Three
    } else if i == 2 {
        Rank::Four
    } else if i == 3 {
        Rank::Five
    } else if i == 4 {
        Rank::Six
    } else if i == 5 {
        Rank::Seven
    } else if i == 6 {
        Rank::Eight
    } else if i == 7 {
        Rank::Nine
    } else if i == 8 {
        Rank::Ten
    } else if i == 9 {
        Rank::Jack
    } else if i == 10 {
        Rank::Queen
    } else if i == 11 {
        Rank::King
    } else {
        Rank::Ace
    }
}

/// A copy of a card vector with the same view.
pub fn copy_cards(cards: &Vec<Card>) -> (r: Vec<Card>)
    ensures
        r@ == cards@,
{
    let mut r: Vec<Card> = Vec::new();
    let mut i: usize = 0;
    while i < cards.len()
        invariant
            i <= cards@.len(),
            r@ == cards@.take(i as int),
        decreases cards@.len() - i,
    {
        r.push(cards[i]);
        proof {
            assert(r@ =~= cards@.take(i + 1));
        }
        i = i + 1;
    }
    proof {
        assert(cards@.take(cards@.len() as int) =~= cards@);
    }
    r
}

/// The 52-card deck in generation order: every suit/rank combination exactly
/// once, card `c` at position `card_code(c)`.
pub fn full_deck() -> (deck: Vec<Card>)
    ensures
        deck@.len() == 52,
        forall|m: int| 0 <= m < 52 ==> card_code(deck@[m]) == m,
        forall|c: Card| 0 <= card_code(c) < 52 && deck@[card_code(c)] == c,
        deck@.no_duplicates(),
{
    let mut deck: Vec<Card> = Vec::new();
    let mut si: usize = 0;
    while si < 4
        invariant
            si <= 4,
            deck@.len() == 13 * si,
            forall|m: int| 0 <= m < deck@.len() ==> card_code(deck@[m]) == m,
        decreases 4 - si,
    {
        let suit = suit_of(si);
        let mut ri: usize = 0;
        while ri < 13
            invariant
                ri <= 13,
                si < 4,
                suit_idx(suit) == si,
                deck@.len() == 13 * si + ri,
                forall|m: int| 0 <= m < deck@.len() ==> card_code(deck@[m]) == m,
            decreases 13 - ri,
        {
            let rank = rank_of(ri);
            deck.push(Card { suit, rank });
            ri = ri + 1;
        }
        si = si + 1;
    }
    proof {
        assert forall|c: Card| 0 <= card_code(c) < 52 && deck@[card_code(c)] == c by {
            assert(0 <= suit_idx(c.suit) < 4);
            assert(0 <= rank_idx(c.rank) < 13);
            let m = card_code(c);
            assert(card_code(deck@[m]) == m);
            let d = deck@[m];
            assert(suit_idx(d.suit) * 13 + rank_idx(d.rank) == suit_idx(c.suit) * 13 + rank_idx(
                c.rank,
            ));
            assert(suit_idx(d.suit) == suit_idx(c.suit) && rank_idx(d.rank) == rank_idx(c.rank));
            assert(d.suit == c.suit && d.rank == c.rank);
        }
        assert forall|m1: int, m2: int|
            0 <= m1 < 52 && 0 <= m2 < 52 && m1 != m2 implies deck@[m1] != deck@[m2] by {
            assert(card_code(deck@[m1]) == m1);
            assert(card_code(deck@[m2]) == m2);
        }
    }
    deck
}

} // verus!
