//! Ranked poker hands and the total order used at showdown.
//!
//! A `Hand` pairs a category (`HandType`) with the tie-break value sequence.
//! Hands compare first by category rank, then lexicographically by the
//! tie-break values; this order is the sole comparison used for showdown
//! and for Monte Carlo outcome tallying.

use vstd::prelude::*;

verus! {

/// Poker hand categories, weakest to strongest.
#[derive(Debug, Clone, Copy, PartialEq, Eq, Structural)]
pub enum HandType {
    HighCard,
    Pair,
    TwoPair,
    ThreeOfAKind,
    Straight,
    Flush,
    FullHouse,
    FourOfAKind,
    StraightFlush,
}

/// A classified 5-card hand: its category and the card values used for
/// tie-breaking (sorted descending, with the wheel rewritten to 5,4,3,2,1).
#[derive(Debug, Clone, PartialEq, Eq)]
pub struct Hand {
    pub hand_type: HandType,
    pub values: Vec<u8>,
}

/// Mathematical image of a `Hand`.
pub ghost struct HandV {
    pub hand_type: HandType,
    pub values: Seq<u8>,
}

impl View for Hand {
    type V = HandV;

    open spec fn view(&self) -> HandV {
        HandV { hand_type: self.hand_type, values: self.values@ }
    }
}

/// Numeric rank of a category: HighCard is lowest, StraightFlush highest.
pub open spec fn type_rank(t: HandType) -> int {
    match t {
        HandType::HighCard => 0,
        HandType::Pair => 1,
        HandType::TwoPair => 2,
        HandType::ThreeOfAKind => 3,
        HandType::Straight => 4,
        HandType::Flush => 5,
        HandType::FullHouse => 6,
        HandType::FourOfAKind => 7,
        HandType::StraightFlush => 8,
    }
}

/// Lexicographic order on value sequences; a strict prefix sorts first.
pub open spec fn lex_le(a: Seq<u8>, b: Seq<u8>) -> bool
    decreases a.len(),
{
    if a.len() == 0 {
        true
    } else if b.len() == 0 {
        false
    } else if a[0] < b[0] {
        true
    } else if a[0] > b[0] {
        false
    } else {
        lex_le(a.drop_first(), b.drop_first())
    }
}

/// The showdown order: category rank first, then tie-break values.
pub open spec fn hand_le(a: HandV, b: HandV) -> bool {
    type_rank(a.hand_type) < type_rank(b.hand_type) || (type_rank(a.hand_type) == type_rank(
        b.hand_type,
    ) && lex_le(a.values, b.values))
}

pub proof fn lemma_lex_le_refl(a: Seq<u8>)
    ensures
        lex_le(a, a),
    decreases a.len(),
{
    if a.len() > 0 {
        lemma_lex_le_refl(a.drop_first());
    }
}

pub proof fn lemma_lex_le_total(a: Seq<u8>, b: Seq<u8>)
    ensures
        lex_le(a, b) || lex_le(b, a),
    decreases a.len(),
{
    if a.len() > 0 && b.len() > 0 && a[0] == b[0] {
        lemma_lex_le_total(a.drop_first(), b.drop_first());
    }
}

pub proof fn lemma_lex_le_trans(a: Seq<u8>, b: Seq<u8>, c: Seq<u8>)
    requires
        lex_le(a, b),
        lex_le(b, c),
    ensures
        lex_le(a, c),
    decreases a.len(),
{
    if a.len() > 0 && b.len() > 0 && c.len() > 0 && a[0] == b[0] && b[0] == c[0] {
        lemma_lex_le_trans(a.drop_first(), b.drop_first(), c.drop_first());
    }
}

pub proof fn lemma_lex_le_antisymm(a: Seq<u8>, b: Seq<u8>)
    requires
        lex_le(a, b),
        lex_le(b, a),
    ensures
        a == b,
    decreases a.len(),
{
    if a.len() > 0 && b.len() > 0 {
        lemma_lex_le_antisymm(a.drop_first(), b.drop_first());
        assert(a =~= seq![a[0]] + a.drop_first());
        assert(b =~= seq![b[0]] + b.drop_first());
    } else {
        assert(a =~= b);
    }
}

/// Categories alone decide the order between hands of different categories:
/// a hand of a strictly higher category never compares less-or-equal to one
/// of a lower category, whatever the tie-break values.
pub proof fn lemma_category_order(a: HandV, b: HandV)
    requires
        type_rank(a.hand_type) < type_rank(b.hand_type),
    ensures
        hand_le(a, b),
        !hand_le(b, a),
{
}

pub proof fn lemma_hand_le_refl(a: HandV)
    ensures
        hand_le(a, a),
{
    lemma_lex_le_refl(a.values);
}

pub proof fn lemma_hand_le_total(a: HandV, b: HandV)
    ensures
        hand_le(a, b) || hand_le(b, a),
{
    lemma_lex_le_total(a.values, b.values);
}

pub proof fn lemma_hand_le_trans(a: HandV, b: HandV, c: HandV)
    requires
        hand_le(a, b),
        hand_le(b, c),
    ensures
        hand_le(a, c),
{
    if type_rank(a.hand_type) == type_rank(b.hand_type) && type_rank(b.hand_type) == type_rank(
        c.hand_type,
    ) {
        lemma_lex_le_trans(a.values, b.values, c.values);
    }
}

pub proof fn lemma_hand_le_antisymm(a: HandV, b: HandV)
    requires
        hand_le(a, b),
        hand_le(b, a),
    ensures
        a.hand_type == b.hand_type,
        a.values == b.values,
{
    lemma_lex_le_antisymm(a.values, b.values);
    assert(type_rank(a.hand_type) == type_rank(b.hand_type));
    assert(a.hand_type == b.hand_type) by {
        lemma_type_rank_injective(a.hand_type, b.hand_type);
    }
}

proof fn lemma_type_rank_injective(s: HandType, t: HandType)
    requires
        type_rank(s) == type_rank(t),
    ensures
        s == t,
{
}

fn type_rank_exec(t: HandType) -> (r: u8)
    ensures
        r == type_rank(t),
{
    match t {
        HandType::HighCard => 0,
        HandType::Pair => 1,
        HandType::TwoPair => 2,
        HandType::ThreeOfAKind => 3,
        HandType::Straight => 4,
        HandType::Flush => 5,
        HandType::FullHouse => 6,
        HandType::FourOfAKind => 7,
        HandType::StraightFlush => 8,
    }
}

proof fn lemma_lex_from(a: Seq<u8>, b: Seq<u8>, i: int)
    requires
        0 <= i <= a.len(),
        i <= b.len(),
        forall|k: int| 0 <= k < i ==> a[k] == b[k],
    ensures
        (i < a.len() && i < b.len() && a[i] < b[i]) ==> lex_le(a, b),
        (i < a.len() && i < b.len() && a[i] > b[i]) ==> !lex_le(a, b),
        (i == a.len() && a.len() <= b.len()) ==> lex_le(a, b),
        (i == b.len() && b.len() < a.len()) ==> !lex_le(a, b),
    decreases i,
{
    if i > 0 {
        lemma_lex_from(a.drop_first(), b.drop_first(), i - 1);
    }
}

impl Hand {
    /// Whether `self` ranks less than or equal to `other` in the showdown
    /// order.
    pub fn le(&self, other: &Hand) -> (r: bool)
        ensures
            r == hand_le(self@, other@),
    {
        let ra = type_rank_exec(self.hand_type);
        let rb = type_rank_exec(other.hand_type);
        if ra < rb {
            return true;
        }
        if ra > rb {
            return false;
        }
        let a = &self.values;
        let b = &other.values;
        let n = if a.len() <= b.len() {
            a.len()
        } else {
            b.len()
        };
        let mut i: usize = 0;
        while i < n
            invariant
                type_rank(self@.hand_type) == type_rank(other@.hand_type),
                a@ == self@.values,
                b@ == other@.values,
                n == if a@.len() <= b@.len() {
                    a@.len() as int
                } else {
                    b@.len() as int
                },
                i <= n,
                forall|k: int| 0 <= k < i ==> a@[k] == b@[k],
            decreases n - i,
        {
            if a[i] < b[i] {
                proof {
                    lemma_lex_from(a@, b@, i as int);
                }
                return true;
            }
            if a[i] > b[i] {
                proof {
                    lemma_lex_from(a@, b@, i as int);
                }
                return false;
            }
            i = i + 1;
        }
        proof {
            lemma_lex_from(a@, b@, n as int);
        }
        a.len() <= b.len()
    }
}

} // verus!
