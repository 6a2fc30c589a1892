//! Classification of 5-card hands.
//!
//! A hand's tie-break sequence is its card values sorted descending, except
//! that the wheel (A-5-4-3-2) is rewritten to 5,4,3,2,1 so it ranks below a
//! 6-high straight. The category is decided from a straight test, a flush
//! test, and the frequency table of the tie-break values, highest precedence
//! first.

use vstd::prelude::*;
use vstd::relations::{sorted_by, total_ordering};
use vstd::seq_lib::lemma_sorted_unique;
use vstd::multiset::Multiset;

use crate::cards::{card_value, Card};
use crate::hand::{Hand, HandType, HandV};

verus! {

/// The card values of a hand, in input order.
pub open spec fn values_of(cards: Seq<Card>) -> Seq<u8> {
    cards.map_values(|c: Card| card_value(c))
}

/// Descending order on card values, as a relation for sorting.
pub open spec fn desc_order() -> spec_fn(u8, u8) -> bool {
    |a: u8, b: u8| a >= b
}

/// A sequence sorted weakly descending.
pub open spec fn sorted_desc(s: Seq<u8>) -> bool {
    sorted_by(s, desc_order())
}

/// The descending sort of a value sequence.
pub open spec fn sort_desc_spec(s: Seq<u8>) -> Seq<u8> {
    s.sort_by(desc_order())
}

pub proof fn lemma_desc_order_total()
    ensures
        total_ordering(desc_order()),
{
    assert forall|a: u8| #[trigger] desc_order()(a, a) by {}
}

/// All five cards share one suit.
pub open spec fn is_flush(cards: Seq<Card>) -> bool {
    forall|i: int| 0 <= i < cards.len() ==> (#[trigger] cards[i].suit) == cards[0].suit
}

/// The Ace-low straight A-5-4-3-2.
pub open spec fn is_wheel(cards: Seq<Card>) -> bool {
    sort_desc_spec(values_of(cards)) == seq![14u8, 5u8, 4u8, 3u8, 2u8]
}

/// The tie-break sequence: values sorted descending, with the wheel
/// rewritten so it compares below every other straight.
pub open spec fn spec_tiebreaks(cards: Seq<Card>) -> Seq<u8> {
    if is_wheel(cards) {
        seq![5u8, 4u8, 3u8, 2u8, 1u8]
    } else {
        sort_desc_spec(values_of(cards))
    }
}

/// Each value exceeds its successor by exactly one: a straight, once the
/// wheel has been rewritten.
pub open spec fn desc_by_one(s: Seq<u8>) -> bool {
    forall|i: int| 0 <= i < s.len() - 1 ==> (#[trigger] s[i]) == s[i + 1] + 1
}

/// How often `v` occurs in `s`.
pub open spec fn vcount(s: Seq<u8>, v: u8) -> nat
    decreases s.len(),
{
    if s.len() == 0 {
        0
    } else {
        vcount(s.drop_last(), v) + if s.last() == v {
            1nat
        } else {
            0nat
        }
    }
}

/// Some value occurs exactly `n` times.
pub open spec fn has_kind(s: Seq<u8>, n: nat) -> bool {
    exists|v: u8| s.contains(v) && vcount(s, v) == n
}

/// A three of a kind together with a pair of a different value.
pub open spec fn is_full_house_counts(s: Seq<u8>) -> bool {
    exists|v: u8, w: u8|
        v != w && s.contains(v) && s.contains(w) && vcount(s, v) == 3 && vcount(s, w) == 2
}

/// Two pairs of different values.
pub open spec fn is_two_pair_counts(s: Seq<u8>) -> bool {
    exists|v: u8, w: u8|
        v != w && s.contains(v) && s.contains(w) && vcount(s, v) == 2 && vcount(s, w) == 2
}

/// Category of a hand with tie-break values `tb`, flush status `flush`;
/// highest precedence first, as the evaluator decides it.
pub open spec fn classify(tb: Seq<u8>, flush: bool) -> HandType {
    let straight = desc_by_one(tb);
    if straight && flush {
        HandType::StraightFlush
    } else if has_kind(tb, 4) {
        HandType::FourOfAKind
    } else if is_full_house_counts(tb) {
        HandType::FullHouse
    } else if flush {
        HandType::Flush
    } else if straight {
        HandType::Straight
    } else if has_kind(tb, 3) {
        HandType::ThreeOfAKind
    } else if is_two_pair_counts(tb) {
        HandType::TwoPair
    } else if has_kind(tb, 2) {
        HandType::Pair
    } else {
        HandType::HighCard
    }
}

/// The category of a 5-card hand.
pub open spec fn spec_hand_type(cards: Seq<Card>) -> HandType {
    classify(spec_tiebreaks(cards), is_flush(cards))
}

/// The full evaluation of a 5-card hand.
pub open spec fn spec_evaluate_hand(cards: Seq<Card>) -> HandV {
    HandV { hand_type: spec_hand_type(cards), values: spec_tiebreaks(cards) }
}

pub proof fn lemma_vcount_two(s: Seq<u8>, v: u8, w: u8)
    requires
        v != w,
    ensures
        vcount(s, v) + vcount(s, w) <= s.len(),
    decreases s.len(),
{
    if s.len() > 0 {
        lemma_vcount_two(s.drop_last(), v, w);
    }
}

pub proof fn lemma_vcount_three(s: Seq<u8>, u: u8, v: u8, w: u8)
    requires
        u != v,
        u != w,
        v != w,
    ensures
        vcount(s, u) + vcount(s, v) + vcount(s, w) <= s.len(),
    decreases s.len(),
{
    if s.len() > 0 {
        lemma_vcount_three(s.drop_last(), u, v, w);
    }
}

/// Sorts a copy of `s` weakly descending.
fn sort_desc(s: &Vec<u8>) -> (out: Vec<u8>)
    ensures
        out@.to_multiset() == s@.to_multiset(),
        sorted_desc(out@),
        out@.len() == s@.len(),
{
    broadcast use vstd::seq_lib::group_to_multiset_ensures, vstd::seq_lib::to_multiset_insert;

    let mut out: Vec<u8> = Vec::new();
    let mut i: usize = 0;
    while i < s.len()
        invariant
            i <= s@.len(),
            out@.len() == i,
            out@.to_multiset() == s@.take(i as int).to_multiset(),
            sorted_desc(out@),
        decreases s@.len() - i,
    {
        let x = s[i];
        let mut p: usize = 0;
        while p < out.len() && out[p] >= x
            invariant
                p <= out@.len(),
                forall|k: int| 0 <= k < p ==> out@[k] >= x,
            decreases out@.len() - p,
        {
            p = p + 1;
        }
        let ghost old_out = out@;
        out.insert(p, x);
        proof {
            assert(out@ == old_out.insert(p as int, x));
            vstd::seq_lib::to_multiset_insert(old_out, p as int, x);
            assert(s@.take(i + 1) =~= s@.take(i as int).push(s@[i as int]));
            vstd::seq_lib::to_multiset_build(s@.take(i as int), s@[i as int]);
            assert forall|k1: int, k2: int| 0 <= k1 < k2 < out@.len() implies #[trigger] desc_order()(
                out@[k1],
                out@[k2],
            ) by {
                if k2 < p {
                    assert(desc_order()(old_out[k1], old_out[k2]));
                } else if k1 > p {
                    assert(desc_order()(old_out[k1 - 1], old_out[k2 - 1]));
                } else if k1 < p && k2 == p {
                    assert(out@[k1] == old_out[k1]);
                } else if k1 == p && k2 > p {
                    if p < old_out.len() {
                        assert(out@[k2] == old_out[k2 - 1]);
                        if k2 - 1 > p {
                            assert(desc_order()(old_out[p as int], old_out[k2 - 1]));
                        }
                        assert(old_out[p as int] < x);
                    }
                } else if k1 < p && k2 > p {
                    assert(out@[k1] == old_out[k1] && out@[k2] == old_out[k2 - 1]);
                    if k2 - 1 > p || k2 - 1 == p {
                        assert(old_out[p as int] < x);
                        if k2 - 1 > p {
                            assert(desc_order()(old_out[p as int], old_out[k2 - 1]));
                        }
                    }
                }
            }
        }
        i = i + 1;
    }
    proof {
        assert(s@.take(s@.len() as int) =~= s@);
    }
    out
}

/// How many entries of `v` equal `x`.
fn count_value(v: &Vec<u8>, x: u8) -> (c: usize)
    ensures
        c == vcount(v@, x),
{
    let mut c: usize = 0;
    let mut i: usize = 0;
    while i < v.len()
        invariant
            i <= v@.len(),
            c <= i,
            c == vcount(v@.take(i as int), x),
        decreases v@.len() - i,
    {
        proof {
            assert(v@.take(i + 1).drop_last() =~= v@.take(i as int));
            assert(v@.take(i + 1).last() == v@[i as int]);
        }
        if v[i] == x {
            c = c + 1;
        }
        i = i + 1;
    }
    proof {
        assert(v@.take(v@.len() as int) =~= v@);
    }
    c
}

/// Finds a value that occurs exactly `n` times, if any does.
fn find_count(v: &Vec<u8>, n: usize) -> (r: Option<u8>)
    ensures
        match r {
            Some(x) => v@.contains(x) && vcount(v@, x) == n,
            None => !has_kind(v@, n as nat),
        },
{
    let mut i: usize = 0;
    while i < v.len()
        invariant
            i <= v@.len(),
            forall|j: int| 0 <= j < i ==> vcount(v@, #[trigger] v@[j]) != n,
        decreases v@.len() - i,
    {
        let c = count_value(v, v[i]);
        if c == n {
            return Some(v[i]);
        }
        i = i + 1;
    }
    proof {
        assert forall|x: u8| v@.contains(x) implies vcount(v@, x) != n by {
            let j = choose|j: int| 0 <= j < v@.len() && v@[j] == x;
            assert(vcount(v@, v@[j]) != n);
        }
    }
    None
}

/// Finds a value other than `avoid` that occurs exactly `n` times, if any.
fn find_count_other(v: &Vec<u8>, n: usize, avoid: u8) -> (r: Option<u8>)
    ensures
        match r {
            Some(x) => x != avoid && v@.contains(x) && vcount(v@, x) == n,
            None => !(exists|x: u8| x != avoid && v@.contains(x) && vcount(v@, x) == n),
        },
{
    let mut i: usize = 0;
    while i < v.len()
        invariant
            i <= v@.len(),
            forall|j: int|
                0 <= j < i ==> v@[j] == avoid || vcount(v@, #[trigger] v@[j]) != n,
        decreases v@.len() - i,
    {
        if v[i] != avoid {
            let c = count_value(v, v[i]);
            if c == n {
                return Some(v[i]);
            }
        }
        i = i + 1;
    }
    proof {
        assert forall|x: u8| x != avoid && v@.contains(x) implies vcount(v@, x) != n by {
            let j = choose|j: int| 0 <= j < v@.len() && v@[j] == x;
            assert(v@[j] == avoid || vcount(v@, v@[j]) != n);
        }
    }
    None
}

/// Classifies a 5-card hand into its category and tie-break values.
pub fn evaluate_hand(cards: &Vec<Card>) -> (r: Hand)
    requires
        cards@.len() == 5,
    ensures
        r@ == spec_evaluate_hand(cards@),
{
    let mut raw: Vec<u8> = Vec::new();
    let mut i: usize = 0;
    while i < cards.len()
        invariant
            cards@.len() == 5,
            i <= 5,
            raw@.len() == i,
            forall|k: int| 0 <= k < i ==> raw@[k] == card_value(cards@[k]),
        decreases 5 - i,
    {
        raw.push(cards[i].value());
        i = i + 1;
    }
    proof {
        assert(raw@ =~= values_of(cards@));
    }

    let mut v = sort_desc(&raw);
    proof {
        lemma_desc_order_total();
        values_of(cards@).lemma_sort_by_ensures(desc_order());
        lemma_sorted_unique(v@, sort_desc_spec(values_of(cards@)), desc_order());
        assert(v@ == sort_desc_spec(values_of(cards@)));
    }

    let mut flush = true;
    let mut j: usize = 0;
    while j < cards.len()
        invariant
            cards@.len() == 5,
            j <= 5,
            flush <==> forall|k: int| 0 <= k < j ==> (#[trigger] cards@[k].suit) == cards@[0].suit,
        decreases 5 - j,
    {
        if !(cards[j].suit == cards[0].suit) {
            flush = false;
        }
        j = j + 1;
    }
    proof {
        assert(flush == is_flush(cards@));
    }

    let wheel = v[0] == 14 && v[1] == 5 && v[2] == 4 && v[3] == 3 && v[4] == 2;
    proof {
        let w: Seq<u8> = seq![14u8, 5u8, 4u8, 3u8, 2u8];
        assert(w.len() == 5 && w[0] == 14 && w[1] == 5 && w[2] == 4 && w[3] == 3 && w[4] == 2);
        if wheel {
            assert(v@ =~= w);
        }
        assert(wheel == is_wheel(cards@));
    }
    if wheel {
        v = vec![5u8, 4u8, 3u8, 2u8, 1u8];
        proof {
            assert(v@ =~= seq![5u8, 4u8, 3u8, 2u8, 1u8]);
        }
    }
    proof {
        assert(v@ == spec_tiebreaks(cards@));
        assert(v@.len() == 5);
    }

    let straight = v[0] as u32 == v[1] as u32 + 1 && v[1] as u32 == v[2] as u32 + 1 && v[2] as u32
        == v[3] as u32 + 1 && v[3] as u32 == v[4] as u32 + 1;
    proof {
        if straight {
            assert forall|k: int| 0 <= k < v@.len() - 1 implies (#[trigger] v@[k]) == v@[k + 1]
                + 1 by {
                assert(k == 0 || k == 1 || k == 2 || k == 3);
            }
        } else {
            assert(!desc_by_one(v@)) by {
                if desc_by_one(v@) {
                    assert(v@[0] == v@[1] + 1);
                    assert(v@[1] == v@[2] + 1);
                    assert(v@[2] == v@[3] + 1);
                    assert(v@[3] == v@[4] + 1);
                }
            }
        }
        assert(straight == desc_by_one(v@));
    }

    let four = find_count(&v, 4);
    let three = find_count(&v, 3);
    let pair1 = find_count(&v, 2);
    let full_house = match three {
        Some(t) => match find_count_other(&v, 2, t) {
            Some(_) => true,
            None => false,
        },
        None => false,
    };
    let two_pair = match pair1 {
        Some(p) => match find_count_other(&v, 2, p) {
            Some(_) => true,
            None => false,
        },
        None => false,
    };
    proof {
        assert(full_house == is_full_house_counts(v@)) by {
            if !full_house {
                if is_full_house_counts(v@) {
                    let (x, w): (u8, u8) = choose|x: u8, w: u8|
                        x != w && v@.contains(x) && v@.contains(w) && vcount(v@, x) == 3 && vcount(
                            v@,
                            w,
                        ) == 2;
                    assert(has_kind(v@, 3));
                    let t = three->Some_0;
                    if t != x {
                        lemma_vcount_two(v@, t, x);
                    }
                    assert(t == x);
                }
            }
        }
        assert(two_pair == is_two_pair_counts(v@)) by {
            if !two_pair {
                if is_two_pair_counts(v@) {
                    let (x, w): (u8, u8) = choose|x: u8, w: u8|
                        x != w && v@.contains(x) && v@.contains(w) && vcount(v@, x) == 2 && vcount(
                            v@,
                            w,
                        ) == 2;
                    assert(has_kind(v@, 2));
                    let p = pair1->Some_0;
                    if p != x && p != w {
                        lemma_vcount_three(v@, p, x, w);
                    }
                    assert(p == x || p == w);
                }
            }
        }
    }

    let hand_type = if straight && flush {
        HandType::StraightFlush
    } else if four.is_some() {
        HandType::FourOfAKind
    } else if full_house {
        HandType::FullHouse
    } else if flush {
        HandType::Flush
    } else if straight {
        HandType::Straight
    } else if three.is_some() {
        HandType::ThreeOfAKind
    } else if two_pair {
        HandType::TwoPair
    } else if pair1.is_some() {
        HandType::Pair
    } else {
        HandType::HighCard
    };
    Hand { hand_type, values: v }
}

/// The value multiset of a card sequence is invariant under permutation.
proof fn lemma_values_of_multiset(s1: Seq<Card>, s2: Seq<Card>)
    requires
        s1.to_multiset() == s2.to_multiset(),
    ensures
        values_of(s1).to_multiset() == values_of(s2).to_multiset(),
    decreases s1.len(),
{
    broadcast use vstd::seq_lib::group_to_multiset_ensures;
    broadcast use vstd::multiset::group_multiset_axioms;

    vstd::seq_lib::to_multiset_len(s1);
    vstd::seq_lib::to_multiset_len(s2);
    if s1.len() == 0 {
        assert(s2.len() == 0);
        assert(values_of(s1) =~= values_of(s2));
    } else {
        let c = s1.last();
        assert(s1.contains(c));
        vstd::seq_lib::to_multiset_contains(s1, c);
        vstd::seq_lib::to_multiset_contains(s2, c);
        assert(s2.contains(c));
        let j = choose|j: int| 0 <= j < s2.len() && s2[j] == c;
        assert(s1.drop_last().push(c) =~= s1);
        vstd::seq_lib::to_multiset_build(s1.drop_last(), c);
        assert(s1.drop_last().to_multiset() =~= s1.to_multiset().remove(c));
        vstd::seq_lib::to_multiset_remove(s2, j);
        assert(s2.remove(j).to_multiset() == s2.to_multiset().remove(c));
        lemma_values_of_multiset(s1.drop_last(), s2.remove(j));
        assert(values_of(s2.remove(j)) =~= values_of(s2).remove(j));
        assert(values_of(s1.drop_last()) =~= values_of(s1).drop_last());
        assert(values_of(s1).drop_last().push(card_value(c)) =~= values_of(s1));
        vstd::seq_lib::to_multiset_build(values_of(s1).drop_last(), card_value(c));
        vstd::seq_lib::to_multiset_remove(values_of(s2), j);
        assert(values_of(s2)[j] == card_value(c));
        assert(values_of(s2).to_multiset().count(card_value(c)) > 0) by {
            assert(values_of(s2).contains(card_value(c)));
        }
        assert(values_of(s1).to_multiset() =~= values_of(s2).to_multiset());
    }
}

/// Flush detection is invariant under permutation.
proof fn lemma_flush_permutation(s1: Seq<Card>, s2: Seq<Card>)
    requires
        s1.to_multiset() == s2.to_multiset(),
        s1.len() > 0,
    ensures
        is_flush(s1) == is_flush(s2),
{
    vstd::seq_lib::to_multiset_len(s1);
    vstd::seq_lib::to_multiset_len(s2);
    assert(s2.len() == s1.len());
    if is_flush(s1) {
        assert forall|i: int| 0 <= i < s2.len() implies (#[trigger] s2[i].suit) == s2[0].suit by {
            assert(s2.contains(s2[i]));
            vstd::seq_lib::to_multiset_contains(s2, s2[i]);
            vstd::seq_lib::to_multiset_contains(s1, s2[i]);
            assert(s1.contains(s2[i]));
            assert(s2.contains(s2[0]));
            vstd::seq_lib::to_multiset_contains(s2, s2[0]);
            vstd::seq_lib::to_multiset_contains(s1, s2[0]);
            assert(s1.contains(s2[0]));
        }
    }
    if is_flush(s2) {
        assert forall|i: int| 0 <= i < s1.len() implies (#[trigger] s1[i].suit) == s1[0].suit by {
            assert(s1.contains(s1[i]));
            vstd::seq_lib::to_multiset_contains(s1, s1[i]);
            vstd::seq_lib::to_multiset_contains(s2, s1[i]);
            assert(s2.contains(s1[i]));
            assert(s1.contains(s1[0]));
            vstd::seq_lib::to_multiset_contains(s1, s1[0]);
            vstd::seq_lib::to_multiset_contains(s2, s1[0]);
            assert(s2.contains(s1[0]));
        }
    }
}

/// Hand evaluation is invariant under reordering of the five input cards:
/// two card sequences with the same multiset evaluate to the same category
/// and the same tie-break values.
pub proof fn lemma_evaluate_hand_permutation(s1: Seq<Card>, s2: Seq<Card>)
    requires
        s1.len() == 5,
        s1.to_multiset() == s2.to_multiset(),
    ensures
        spec_evaluate_hand(s1) == spec_evaluate_hand(s2),
{
    vstd::seq_lib::to_multiset_len(s1);
    vstd::seq_lib::to_multiset_len(s2);
    assert(s2.len() == 5);
    lemma_values_of_multiset(s1, s2);
    lemma_desc_order_total();
    values_of(s1).lemma_sort_by_ensures(desc_order());
    values_of(s2).lemma_sort_by_ensures(desc_order());
    lemma_sorted_unique(sort_desc_spec(values_of(s1)), sort_desc_spec(values_of(s2)), desc_order());
    assert(spec_tiebreaks(s1) == spec_tiebreaks(s2));
    lemma_flush_permutation(s1, s2);
}

} // verus!
