//! Monte Carlo estimation of win probabilities.
//!
//! Probabilities are exact rationals: each simulated trial awards the hero
//! `TRIAL_UNIT / tie_count` units (`TRIAL_UNIT` is divisible by every
//! possible tie count at a table of at most 8 seats, so no unit is lost),
//! and the estimate is the total over `TRIAL_UNIT * trials`.

use vstd::prelude::*;

use crate::cards::Card;
use crate::combos::evaluate_best_hand;
use crate::hand::{hand_le, Hand, HandV};
use crate::rng::shuffled;

verus! {

/// Units one trial is worth in total: the least common multiple of 1..=9,
/// so a trial split among up to 9 tied players divides exactly.
pub const TRIAL_UNIT: u64 = 2520;

/// An exact probability as a fraction `num / den`.
#[derive(Debug, Clone, Copy, PartialEq, Eq, Structural)]
pub struct Equity {
    pub num: u64,
    pub den: u64,
}

/// A well-formed probability: positive denominator, value at most one.
pub open spec fn equity_wf(e: Equity) -> bool {
    e.den > 0 && e.num <= e.den
}

/// Two hands tie: each ranks less-or-equal to the other.
pub open spec fn hand_equiv(a: HandV, b: HandV) -> bool {
    hand_le(a, b) && hand_le(b, a)
}

/// The hand at index 0 (the hero's) ranks at least every other hand.
pub open spec fn hero_is_max(hands: Seq<HandV>) -> bool {
    forall|k: int| 0 <= k < hands.len() ==> hand_le(#[trigger] hands[k], hands[0])
}

/// How many hands tie with `h`.
pub open spec fn count_equiv(hands: Seq<HandV>, h: HandV) -> nat
    decreases hands.len(),
{
    if hands.len() == 0 {
        0
    } else {
        count_equiv(hands.drop_last(), h) + if hand_equiv(hands.last(), h) {
            1nat
        } else {
            0nat
        }
    }
}

/// The hero's share of one trial, in units of `1 / TRIAL_UNIT`: the full
/// trial split evenly among the hands tied for the maximum if the hero is
/// among them, nothing otherwise.
pub open spec fn spec_trial_units(hands: Seq<HandV>) -> nat {
    if hero_is_max(hands) {
        (TRIAL_UNIT as nat) / count_equiv(hands, hands[0])
    } else {
        0
    }
}

proof fn lemma_count_equiv_first(hands: Seq<HandV>)
    requires
        hands.len() >= 1,
        hand_equiv(hands[0], hands[0]),
    ensures
        count_equiv(hands, hands[0]) >= 1,
    decreases hands.len(),
{
    if hands.len() == 1 {
        assert(hands.last() == hands[0]);
    } else {
        assert(hands.drop_last()[0] == hands[0]);
        lemma_count_equiv_first(hands.drop_last());
    }
}

/// The hero's share of one completed trial, over the players' best hands
/// (hero's first).
fn trial_units(hands: &Vec<Hand>) -> (u: u64)
    requires
        hands@.len() >= 1,
    ensures
        u == spec_trial_units(hands@.map_values(|h: Hand| h@)),
        u <= TRIAL_UNIT,
{
    let ghost hv = hands@.map_values(|h: Hand| h@);
    proof {
        assert(hv[0] == hands@[0]@);
        crate::hand::lemma_hand_le_refl(hv[0]);
    }
    let mut k: usize = 1;
    let mut is_max = true;
    while k < hands.len()
        invariant
            1 <= k <= hands@.len(),
            hv == hands@.map_values(|h: Hand| h@),
            is_max <==> forall|j: int| 0 <= j < k ==> hand_le(#[trigger] hv[j], hv[0]),
        decreases hands@.len() - k,
    {
        proof {
            assert(hv[k as int] == hands@[k as int]@);
            assert(hv[0] == hands@[0]@);
        }
        if !hands[k].le(&hands[0]) {
            is_max = false;
        }
        k = k + 1;
    }
    proof {
        crate::hand::lemma_hand_le_refl(hv[0]);
    }
    if !is_max {
        return 0;
    }
    let mut c: usize = 0;
    let mut j: usize = 0;
    while j < hands.len()
        invariant
            j <= hands@.len(),
            hv == hands@.map_values(|h: Hand| h@),
            c <= j,
            c == count_equiv(hv.take(j as int), hv[0]),
        decreases hands@.len() - j,
    {
        proof {
            assert(hv.take(j + 1).drop_last() =~= hv.take(j as int));
            assert(hv.take(j + 1).last() == hv[j as int]);
        }
        if hands[j].le(&hands[0]) && hands[0].le(&hands[j]) {
            c = c + 1;
        }
        j = j + 1;
    }
    proof {
        assert(hv.take(hv.len() as int) =~= hv);
        lemma_count_equiv_first(hv);
    }
    let cu = c as u64;
    let u = TRIAL_UNIT / cu;
    proof {
        assert((TRIAL_UNIT as nat) / (cu as nat) <= TRIAL_UNIT as nat) by (nonlinear_arith)
            requires
                cu >= 1,
        ;
    }
    u
}

/// Estimates the probability that the hero's hand wins against the given
/// opponents, by `trials` independent Monte Carlo completions of the board
/// from the undealt deck.
///
/// With no opponents the hero is certain to win. When the undealt deck
/// cannot complete a 5-card board, the estimate falls back to the fair
/// split `1 / (k + 1)` for `k` opponents. Otherwise each trial shuffles a
/// copy of the deck, completes the board, evaluates every player's best
/// hand, and awards the hero a full trial for a unique maximum or an even
/// share of one for a tie. The inputs are never mutated.
pub fn estimate_win_probability(
    hero_cards: &Vec<Card>,
    opponents_cards: &Vec<Vec<Card>>,
    board_cards: &Vec<Card>,
    deck: &Vec<Card>,
    trials: usize,
) -> (r: Equity)
    requires
        1 <= trials,
        TRIAL_UNIT * trials <= u64::MAX,
        opponents_cards@.len() <= 7,
        board_cards@.len() <= 5,
    ensures
        equity_wf(r),
        opponents_cards@.len() == 0 ==> r == (Equity { num: 1, den: 1 }),
        opponents_cards@.len() > 0 && deck@.len() + board_cards@.len() < 5 ==> r == (Equity {
            num: 1,
            den: (opponents_cards@.len() + 1) as u64,
        }),
        opponents_cards@.len() > 0 && deck@.len() + board_cards@.len() >= 5 ==> r.den == TRIAL_UNIT
            * trials,
{
    if opponents_cards.len() == 0 {
        return Equity { num: 1, den: 1 };
    }
    let needed = 5 - board_cards.len();
    if deck.len() < needed {
        return Equity { num: 1, den: opponents_cards.len() as u64 + 1 };
    }

    let mut total: u64 = 0;
    let mut t: usize = 0;
    while t < trials
        invariant
            t <= trials,
            TRIAL_UNIT * trials <= u64::MAX,
            needed == 5 - board_cards@.len(),
            deck@.len() >= needed,
            board_cards@.len() <= 5,
            opponents_cards@.len() >= 1,
            total <= TRIAL_UNIT * t,
        decreases trials - t,
    {
        let sim = shuffled(deck);

        let mut board: Vec<Card> = Vec::new();
        let mut b: usize = 0;
        while b < board_cards.len()
            invariant
                b <= board_cards@.len(),
                board@.len() == b,
            decreases board_cards@.len() - b,
        {
            board.push(board_cards[b]);
            b = b + 1;
        }
        let mut d: usize = 0;
        while d < needed
            invariant
                d <= needed,
                needed <= 5,
                sim@.len() >= needed,
                board@.len() == board_cards@.len() + d,
                needed == 5 - board_cards@.len(),
            decreases needed - d,
        {
            board.push(sim[d]);
            d = d + 1;
        }

        let mut hero_board: Vec<Card> = Vec::new();
        let mut h: usize = 0;
        while h < hero_cards.len()
            invariant
                h <= hero_cards@.len(),
                hero_board@.len() == h,
            decreases hero_cards@.len() - h,
        {
            hero_board.push(hero_cards[h]);
            h = h + 1;
        }
        let mut h2: usize = 0;
        while h2 < board.len()
            invariant
                h2 <= board@.len(),
                hero_board@.len() == hero_cards@.len() + h2,
            decreases board@.len() - h2,
        {
            hero_board.push(board[h2]);
            h2 = h2 + 1;
        }
        let hero_best = evaluate_best_hand(&hero_board);

        let mut all_hands: Vec<Hand> = Vec::new();
        all_hands.push(hero_best);
        let mut o: usize = 0;
        while o < opponents_cards.len()
            invariant
                o <= opponents_cards@.len(),
                all_hands@.len() == o + 1,
                board@.len() == 5,
            decreases opponents_cards@.len() - o,
        {
            let opp = &opponents_cards[o];
            let mut opp_board: Vec<Card> = Vec::new();
            let mut q: usize = 0;
            while q < opp.len()
                invariant
                    q <= opp@.len(),
                    opp_board@.len() == q,
                decreases opp@.len() - q,
            {
                opp_board.push(opp[q]);
                q = q + 1;
            }
            let mut q2: usize = 0;
            while q2 < board.len()
                invariant
                    q2 <= board@.len(),
                    opp_board@.len() == opp@.len() + q2,
                decreases board@.len() - q2,
            {
                opp_board.push(board[q2]);
                q2 = q2 + 1;
            }
            all_hands.push(evaluate_best_hand(&opp_board));
            o = o + 1;
        }

        let u = trial_units(&all_hands);
        total = total + u;
        t = t + 1;
    }
    Equity { num: total, den: TRIAL_UNIT * (trials as u64) }
}

} // verus!
