//! Subset enumeration and best-of-N hand selection.
//!
//! `combinations` enumerates every k-card subsequence of its input;
//! `evaluate_best_hand` takes the maximum hand evaluation over all 5-card
//! subsets of 5 or more cards.

use vstd::prelude::*;

use crate::cards::Card;
use crate::evaluator::{evaluate_hand, spec_evaluate_hand};
use crate::hand::{hand_le, lemma_hand_le_refl, lemma_hand_le_total, lemma_hand_le_trans, Hand};

verus! {

/// `sub` is a subsequence of `full`: its elements appear in `full` in order.
pub open spec fn is_combination(sub: Seq<Card>, full: Seq<Card>) -> bool
    decreases full.len(),
{
    if sub.len() == 0 {
        true
    } else if full.len() == 0 {
        false
    } else {
        (sub[0] == full[0] && is_combination(sub.drop_first(), full.drop_first()))
            || is_combination(sub, full.drop_first())
    }
}

/// `r` holds a vector whose view is exactly `s`.
pub open spec fn contains_combo(r: Seq<Vec<Card>>, s: Seq<Card>) -> bool {
    exists|t: int| 0 <= t < r.len() && r[t]@ == s
}

/// The binomial coefficient C(n, k): how many k-element subsequences an
/// n-element sequence with distinct positions has.
pub open spec fn choose_count(n: nat, k: nat) -> nat
    decreases n,
{
    if k == 0 {
        1
    } else if n == 0 {
        0
    } else {
        choose_count((n - 1) as nat, (k - 1) as nat) + choose_count((n - 1) as nat, k)
    }
}

pub proof fn lemma_combo_refl(s: Seq<Card>)
    ensures
        is_combination(s, s),
    decreases s.len(),
{
    if s.len() > 0 {
        lemma_combo_refl(s.drop_first());
    }
}

pub proof fn lemma_combo_len(sub: Seq<Card>, full: Seq<Card>)
    requires
        is_combination(sub, full),
    ensures
        sub.len() <= full.len(),
    decreases full.len(),
{
    if sub.len() > 0 {
        if sub[0] == full[0] && is_combination(sub.drop_first(), full.drop_first()) {
            lemma_combo_len(sub.drop_first(), full.drop_first());
        } else {
            lemma_combo_len(sub, full.drop_first());
        }
    }
}

pub proof fn lemma_combo_full(sub: Seq<Card>, full: Seq<Card>)
    requires
        is_combination(sub, full),
        sub.len() == full.len(),
    ensures
        sub == full,
    decreases full.len(),
{
    if full.len() == 0 {
        assert(sub =~= full);
    } else {
        if sub[0] == full[0] && is_combination(sub.drop_first(), full.drop_first()) {
            lemma_combo_full(sub.drop_first(), full.drop_first());
            assert(sub =~= seq![sub[0]] + sub.drop_first());
            assert(full =~= seq![full[0]] + full.drop_first());
        } else {
            lemma_combo_len(sub, full.drop_first());
        }
    }
}

pub proof fn lemma_combo_prefix(s: Seq<Card>, n: int)
    requires
        0 <= n <= s.len(),
    ensures
        is_combination(s.take(n), s),
    decreases s.len(),
{
    if n > 0 {
        assert(s.take(n)[0] == s[0]);
        assert(s.take(n).drop_first() =~= s.drop_first().take(n - 1));
        lemma_combo_prefix(s.drop_first(), n - 1);
    }
}

proof fn lemma_combo_cons(x: Card, sub: Seq<Card>, full: Seq<Card>)
    requires
        is_combination(sub, full),
    ensures
        is_combination(seq![x] + sub, seq![x] + full),
{
    let s2 = seq![x] + sub;
    let f2 = seq![x] + full;
    assert(s2[0] == x && f2[0] == x);
    assert(s2.drop_first() =~= sub);
    assert(f2.drop_first() =~= full);
}

proof fn lemma_combo_skip_weaken(sub: Seq<Card>, full: Seq<Card>, j: int)
    requires
        0 <= j <= full.len(),
        is_combination(sub, full.skip(j)),
    ensures
        is_combination(sub, full),
    decreases j,
{
    if j == 0 {
        assert(full.skip(0) =~= full);
    } else {
        assert(full.drop_first().skip(j - 1) =~= full.skip(j));
        lemma_combo_skip_weaken(sub, full.drop_first(), j - 1);
    }
}

/// A nonempty subsequence starts at some position `i` of `full`, and its
/// remainder is a subsequence of what follows that position.
proof fn lemma_combo_cases(sub: Seq<Card>, full: Seq<Card>)
    requires
        is_combination(sub, full),
        sub.len() > 0,
    ensures
        exists|i: int|
            0 <= i < full.len() && sub[0] == full[i] && is_combination(
                sub.drop_first(),
                #[trigger] full.skip(i + 1),
            ),
    decreases full.len(),
{
    if sub[0] == full[0] && is_combination(sub.drop_first(), full.drop_first()) {
        let w: int = 0;
        assert(full.skip(w + 1) =~= full.drop_first());
        assert(0 <= w < full.len() && sub[0] == full[w] && is_combination(
            sub.drop_first(),
            full.skip(w + 1),
        ));
    } else {
        lemma_combo_cases(sub, full.drop_first());
        let i0 = choose|i: int|
            0 <= i < full.drop_first().len() && sub[0] == full.drop_first()[i] && is_combination(
                sub.drop_first(),
                #[trigger] full.drop_first().skip(i + 1),
            );
        let w: int = i0 + 1;
        assert(full.drop_first().skip(i0 + 1) =~= full.skip(w + 1));
        assert(0 <= w < full.len() && sub[0] == full[w] && is_combination(
            sub.drop_first(),
            full.skip(w + 1),
        ));
    }
}

/// All `k`-element subsequences of `items` from position `start` on.
fn combos_from(items: &Vec<Card>, start: usize, k: usize) -> (r: Vec<Vec<Card>>)
    requires
        start <= items@.len(),
    ensures
        forall|t: int|
            0 <= t < r@.len() ==> (#[trigger] r@[t])@.len() == k && is_combination(
                r@[t]@,
                items@.skip(start as int),
            ),
        forall|sub: Seq<Card>|
            sub.len() == k && #[trigger] is_combination(sub, items@.skip(start as int))
                ==> contains_combo(r@, sub),
        r@.len() == choose_count((items@.len() - start) as nat, k as nat),
    decreases items@.len() - start,
{
    if k == 0 {
        let mut r: Vec<Vec<Card>> = Vec::new();
        let empty: Vec<Card> = Vec::new();
        r.push(empty);
        proof {
            assert(r@[0]@ =~= Seq::<Card>::empty());
            assert forall|sub: Seq<Card>|
                sub.len() == 0 && #[trigger] is_combination(
                    sub,
                    items@.skip(start as int),
                ) implies contains_combo(r@, sub) by {
                assert(sub =~= Seq::<Card>::empty());
                assert(r@[0]@ == sub);
            }
        }
        return r;
    }
    let ghost full = items@.skip(start as int);
    let mut result: Vec<Vec<Card>> = Vec::new();
    let mut i: usize = start;
    while i < items.len()
        invariant
            start <= i <= items@.len(),
            k >= 1,
            full == items@.skip(start as int),
            forall|t: int|
                0 <= t < result@.len() ==> (#[trigger] result@[t])@.len() == k && is_combination(
                    result@[t]@,
                    full,
                ),
            forall|sub: Seq<Card>|
                sub.len() == k && (exists|m: int|
                    start <= m < i && sub[0] == items@[m] && is_combination(
                        sub.drop_first(),
                        #[trigger] items@.skip(m + 1),
                    )) ==> contains_combo(result@, sub),
            result@.len() + choose_count((items@.len() - i) as nat, k as nat) == choose_count(
                (items@.len() - start) as nat,
                k as nat,
            ),
        decreases items@.len() - i,
    {
        let rest = combos_from(items, i + 1, k - 1);
        let ghost result_before = result@;
        let mut j: usize = 0;
        while j < rest.len()
            invariant
                start <= i < items@.len(),
                k >= 1,
                j <= rest@.len(),
                full == items@.skip(start as int),
                forall|t: int|
                    0 <= t < rest@.len() ==> (#[trigger] rest@[t])@.len() == k - 1
                        && is_combination(rest@[t]@, items@.skip(i + 1)),
                result_before.len() <= result@.len(),
                forall|t: int|
                    0 <= t < result_before.len() ==> #[trigger] result@[t]@ == result_before[t]@,
                forall|t: int|
                    result_before.len() <= t < result@.len() ==> #[trigger] result@[t]@ == seq![
                        items@[i as int],
                    ] + rest@[t - result_before.len()]@,
                result@.len() == result_before.len() + j,
                forall|t: int|
                    0 <= t < result@.len() ==> (#[trigger] result@[t])@.len() == k
                        && is_combination(result@[t]@, full),
            decreases rest@.len() - j,
        {
            let mut nc: Vec<Card> = Vec::new();
            nc.push(items[i]);
            let combo = &rest[j];
            let mut m: usize = 0;
            while m < combo.len()
                invariant
                    m <= combo@.len(),
                    nc@ == seq![items@[i as int]] + combo@.take(m as int),
                decreases combo@.len() - m,
            {
                nc.push(combo[m]);
                proof {
                    assert(nc@ =~= seq![items@[i as int]] + combo@.take(m + 1));
                }
                m = m + 1;
            }
            proof {
                assert(combo@.take(combo@.len() as int) =~= combo@);
                assert(nc@ == seq![items@[i as int]] + combo@);
                lemma_combo_cons(items@[i as int], combo@, items@.skip(i + 1));
                assert(seq![items@[i as int]] + items@.skip(i + 1) =~= items@.skip(i as int));
                assert(items@.skip(start as int).skip(i - start) =~= items@.skip(i as int));
                lemma_combo_skip_weaken(nc@, full, i - start);
            }
            result.push(nc);
            j = j + 1;
        }
        proof {
            assert forall|sub: Seq<Card>|
                sub.len() == k && (exists|m: int|
                    start <= m < i + 1 && sub[0] == items@[m] && is_combination(
                        sub.drop_first(),
                        #[trigger] items@.skip(m + 1),
                    )) implies contains_combo(result@, sub) by {
                let m = choose|m: int|
                    start <= m < i + 1 && sub[0] == items@[m] && is_combination(
                        sub.drop_first(),
                        #[trigger] items@.skip(m + 1),
                    );
                if m < i {
                    assert(contains_combo(result_before, sub));
                    let t = choose|t: int|
                        0 <= t < result_before.len() && result_before[t]@ == sub;
                    assert(result@[t]@ == sub);
                } else {
                    assert(sub[0] == items@[i as int]);
                    assert(is_combination(sub.drop_first(), items@.skip(i + 1)));
                    assert(sub.drop_first().len() == k - 1);
                    assert(contains_combo(rest@, sub.drop_first()));
                    let t = choose|t: int| 0 <= t < rest@.len() && rest@[t]@ == sub.drop_first();
                    assert(result@[result_before.len() + t]@ == seq![items@[i as int]]
                        + rest@[t]@);
                    assert(seq![items@[i as int]] + sub.drop_first() =~= sub);
                }
            }
        }
        i = i + 1;
    }
    proof {
        assert forall|sub: Seq<Card>|
            sub.len() == k && #[trigger] is_combination(sub, full) implies contains_combo(
            result@,
            sub,
        ) by {
            lemma_combo_cases(sub, full);
            let m0 = choose|m0: int|
                0 <= m0 < full.len() && sub[0] == full[m0] && is_combination(
                    sub.drop_first(),
                    #[trigger] full.skip(m0 + 1),
                );
            assert(full[m0] == items@[start + m0]);
            assert(full.skip(m0 + 1) =~= items@.skip(start + m0 + 1));
            assert(start <= start + m0 < items@.len() && sub[0] == items@[start + m0]
                && is_combination(sub.drop_first(), items@.skip((start + m0) + 1)));
        }
    }
    result
}

/// All `k`-card subsequences of `items`: every entry is one, every one
/// occurs as an entry, and there are exactly C(n, k) entries -- so, for a
/// duplicate-free input, each subsequence exactly once. The order of the
/// entries is left open.
pub fn combinations(items: &Vec<Card>, k: usize) -> (r: Vec<Vec<Card>>)
    ensures
        forall|t: int|
            0 <= t < r@.len() ==> (#[trigger] r@[t])@.len() == k && is_combination(
                r@[t]@,
                items@,
            ),
        forall|sub: Seq<Card>|
            sub.len() == k && #[trigger] is_combination(sub, items@) ==> contains_combo(r@, sub),
        r@.len() == choose_count(items@.len(), k as nat),
{
    let r = combos_from(items, 0, k);
    proof {
        assert(items@.skip(0) =~= items@);
    }
    r
}

/// The best 5-card hand available from 5 or more cards: its evaluation is
/// attained by some 5-card subset and is greater than or equal to the
/// evaluation of every 5-card subset.
pub fn evaluate_best_hand(cards: &Vec<Card>) -> (r: Hand)
    requires
        cards@.len() >= 5,
    ensures
        exists|sub: Seq<Card>|
            #[trigger] is_combination(sub, cards@) && sub.len() == 5 && r@ == spec_evaluate_hand(
                sub,
            ),
        forall|sub: Seq<Card>|
            #[trigger] is_combination(sub, cards@) && sub.len() == 5 ==> hand_le(
                spec_evaluate_hand(sub),
                r@,
            ),
{
    if cards.len() == 5 {
        let r = evaluate_hand(cards);
        proof {
            lemma_combo_refl(cards@);
            assert forall|sub: Seq<Card>|
                #[trigger] is_combination(sub, cards@) && sub.len() == 5 implies hand_le(
                spec_evaluate_hand(sub),
                r@,
            ) by {
                lemma_combo_full(sub, cards@);
                lemma_hand_le_refl(r@);
            }
        }
        return r;
    }
    let combos = combinations(cards, 5);
    proof {
        lemma_combo_prefix(cards@, 5);
        assert(cards@.take(5).len() == 5);
        assert(contains_combo(combos@, cards@.take(5)));
    }
    let mut best = evaluate_hand(&combos[0]);
    proof {
        lemma_hand_le_refl(best@);
        assert(best@ == spec_evaluate_hand(combos@[0]@));
    }
    let mut t: usize = 1;
    while t < combos.len()
        invariant
            1 <= t <= combos@.len(),
            forall|u: int|
                0 <= u < combos@.len() ==> (#[trigger] combos@[u])@.len() == 5 && is_combination(
                    combos@[u]@,
                    cards@,
                ),
            exists|u: int|
                0 <= u < combos@.len() && best@ == spec_evaluate_hand(#[trigger] combos@[u]@),
            forall|u: int|
                0 <= u < t ==> hand_le(spec_evaluate_hand(#[trigger] combos@[u]@), best@),
        decreases combos@.len() - t,
    {
        let h = evaluate_hand(&combos[t]);
        if best.le(&h) {
            proof {
                assert forall|u: int| 0 <= u < t + 1 implies hand_le(
                    spec_evaluate_hand(#[trigger] combos@[u]@),
                    h@,
                ) by {
                    if u < t {
                        lemma_hand_le_trans(spec_evaluate_hand(combos@[u]@), best@, h@);
                    } else {
                        lemma_hand_le_refl(h@);
                    }
                }
            }
            best = h;
        } else {
            proof {
                lemma_hand_le_total(best@, h@);
            }
        }
        t = t + 1;
    }
    proof {
        let u0 = choose|u: int|
            0 <= u < combos@.len() && best@ == spec_evaluate_hand(#[trigger] combos@[u]@);
        assert(is_combination(combos@[u0]@, cards@) && combos@[u0]@.len() == 5);
        assert forall|sub: Seq<Card>|
            #[trigger] is_combination(sub, cards@) && sub.len() == 5 implies hand_le(
            spec_evaluate_hand(sub),
            best@,
        ) by {
            assert(contains_combo(combos@, sub));
            let u = choose|u: int| 0 <= u < combos@.len() && combos@[u]@ == sub;
            assert(hand_le(spec_evaluate_hand(combos@[u]@), best@));
        }
    }
    best
}

} // verus!
