//! The betting engine: per-action legality, exact state effects, and the
//! action/robot-chain driver.
//!
//! Legality is decided before anything is mutated, so a rejected action
//! leaves the state exactly as it was. A legal action's effect on chips,
//! pot, committed bets and the table bet is stated exactly by
//! `action_applied`.

use vstd::multiset::Multiset;
use vstd::prelude::*;

use crate::cards::Card;

use crate::state::{
    bets_below_table, cards_in_play, chips_sum, holes_ms, lemma_chips_sum_update,
    lemma_holes_ms_update, no_card_duplicated, player_wf, state_wf, total_money, Action,
    ActionType, GameState, Player, PokerError,
};

verus! {

/// What a Call must add to match the table bet (zero if already matched).
pub open spec fn call_amount_of(g: GameState, i: int) -> int {
    if g.current_bet >= g.players@[i].current_bet {
        g.current_bet - g.players@[i].current_bet
    } else {
        0
    }
}

/// The error an action is refused with, if any: checks are illegal against
/// a live bet; bets and raises need an amount strictly above the table bet;
/// calls, bets and raises need the chips to cover them.
pub open spec fn action_error(g: GameState, a: Action) -> Option<PokerError>
    recommends
        a.player_index < g.players@.len(),
{
    let i = a.player_index as int;
    match a.action_type {
        ActionType::Fold => None,
        ActionType::Check => if g.current_bet > 0 {
            Some(PokerError::IllegalAction)
        } else {
            None
        },
        ActionType::Call => if (g.players@[i].chips as int) < call_amount_of(g, i) {
            Some(PokerError::InsufficientChips)
        } else {
            None
        },
        ActionType::Bet => bet_error(g, a),
        ActionType::Raise => bet_error(g, a),
    }
}

/// The error a Bet or Raise is refused with, if any.
pub open spec fn bet_error(g: GameState, a: Action) -> Option<PokerError> {
    let i = a.player_index as int;
    match a.amount {
        None => Some(PokerError::IllegalAction),
        Some(amt) => if amt <= g.current_bet {
            Some(PokerError::IllegalAction)
        } else if g.players@[i].chips < amt {
            Some(PokerError::InsufficientChips)
        } else {
            None
        },
    }
}

/// All seats except `i` are untouched.
pub open spec fn others_unchanged(pre: Seq<Player>, post: Seq<Player>, i: int) -> bool {
    post.len() == pre.len() && forall|j: int|
        0 <= j < pre.len() && j != i ==> post[j] == pre[j]
}

/// The acting seat keeps everything an action cannot change.
pub open spec fn player_core_unchanged(p: Player, q: Player) -> bool {
    &&& q.win_probability == p.win_probability
    &&& q.is_robot == p.is_robot
    &&& q.name == p.name
    &&& q.personality == p.personality
}

/// The exact effect of a legal action on the state: what the acting seat's
/// cards, chips and committed bet become, and what the pot and table bet
/// become; everything else stays.
pub open spec fn action_applied(pre: GameState, a: Action, post: GameState) -> bool {
    let i = a.player_index as int;
    let p = pre.players@[i];
    let q = post.players@[i];
    &&& post.deck@ == pre.deck@
    &&& post.community_cards@ == pre.community_cards@
    &&& post.game_mode == pre.game_mode
    &&& post.stats == pre.stats
    &&& post.hand_history@ == pre.hand_history@
    &&& post.current_player == pre.current_player
    &&& post.last_action == pre.last_action
    &&& others_unchanged(pre.players@, post.players@, i)
    &&& player_core_unchanged(p, q)
    &&& match a.action_type {
        ActionType::Fold => {
            &&& q.cards@ == Seq::<Card>::empty()
            &&& q.chips == p.chips
            &&& q.current_bet == p.current_bet
            &&& post.pot == pre.pot
            &&& post.current_bet == pre.current_bet
        },
        ActionType::Check => {
            &&& q == p
            &&& post.pot == pre.pot
            &&& post.current_bet == pre.current_bet
        },
        ActionType::Call => {
            let need = call_amount_of(pre, i);
            &&& q.cards@ == p.cards@
            &&& q.chips == p.chips - need
            &&& q.current_bet == p.current_bet + need
            &&& post.pot == pre.pot + need
            &&& post.current_bet == pre.current_bet
        },
        ActionType::Bet => bet_applied(pre, a, post),
        ActionType::Raise => bet_applied(pre, a, post),
    }
}

/// The exact effect of a legal Bet or Raise: the seat is debited the full
/// amount, which becomes both the table bet and the seat's committed bet.
pub open spec fn bet_applied(pre: GameState, a: Action, post: GameState) -> bool {
    let i = a.player_index as int;
    let p = pre.players@[i];
    let q = post.players@[i];
    let amt = a.amount->Some_0;
    &&& q.cards@ == p.cards@
    &&& q.chips == p.chips - amt
    &&& q.current_bet == amt
    &&& post.pot == pre.pot + amt
    &&& post.current_bet == amt
}

/// Every seat's chips are part of the total.
proof fn lemma_chips_sum_ge(players: Seq<Player>, i: int)
    requires
        0 <= i < players.len(),
    ensures
        chips_sum(players) >= players[i].chips,
        chips_sum(players) >= 0,
    decreases players.len(),
{
    if players.len() > 0 {
        if i == players.len() - 1 {
            lemma_chips_sum_nonneg(players.drop_last());
        } else {
            lemma_chips_sum_ge(players.drop_last(), i);
        }
    }
}

proof fn lemma_chips_sum_nonneg(players: Seq<Player>)
    ensures
        chips_sum(players) >= 0,
    decreases players.len(),
{
    if players.len() > 0 {
        lemma_chips_sum_nonneg(players.drop_last());
    }
}

impl GameState {
    /// Applies one betting action: validates it against the current state,
    /// then moves the chips. A rejected action returns its error with the
    /// state exactly as it was; a legal one has exactly the effect
    /// `action_applied` states. Money is never created or destroyed.
    #[verifier::rlimit(50)]
    pub fn apply_action(&mut self, action: Action) -> (r: Result<(), PokerError>)
        requires
            state_wf(*old(self)),
            action.player_index < old(self).players@.len(),
        ensures
            state_wf(*final(self)),
            total_money(*final(self)) == total_money(*old(self)),
            match r {
                Ok(()) => action_error(*old(self), action) is None && action_applied(
                    *old(self),
                    action,
                    *final(self),
                ),
                Err(e) => action_error(*old(self), action) == Some(e) && *final(self) == *old(
                    self,
                ),
            },
    {
        let i = action.player_index;
        let ghost pre = *self;
        match action.action_type {
            ActionType::Fold => {
                let mut p = self.players.remove(i);
                p.cards = Vec::new();
                let ghost q = p;
                self.players.insert(i, p);
                proof {
                    assert(self.players@ =~= pre.players@.update(i as int, q));
                    lemma_wf_after_update(pre, *self, i as int, q);
                }
                Ok(())
            },
            ActionType::Check => {
                if self.current_bet > 0 {
                    return Err(PokerError::IllegalAction);
                }
                Ok(())
            },
            ActionType::Call => {
                let table = self.current_bet;
                let seat_bet = self.players[i].current_bet;
                let chips = self.players[i].chips;
                let need = if table >= seat_bet {
                    table - seat_bet
                } else {
                    0
                };
                if chips < need {
                    return Err(PokerError::InsufficientChips);
                }
                proof {
                    lemma_chips_sum_ge(pre.players@, i as int);
                }
                let mut p = self.players.remove(i);
                p.chips = p.chips - need;
                p.current_bet = p.current_bet + need;
                let ghost q = p;
                self.players.insert(i, p);
                self.pot = self.pot + need;
                proof {
                    assert(self.players@ =~= pre.players@.update(i as int, q));
                    lemma_wf_after_update(pre, *self, i as int, q);
                }
                Ok(())
            },
            ActionType::Bet => self.apply_wager(action),
            ActionType::Raise => self.apply_wager(action),
        }
    }

    /// Applies a legal Bet or Raise (the two share legality and effects).
    fn apply_wager(&mut self, action: Action) -> (r: Result<(), PokerError>)
        requires
            state_wf(*old(self)),
            action.player_index < old(self).players@.len(),
            action.action_type is Bet || action.action_type is Raise,
        ensures
            state_wf(*final(self)),
            total_money(*final(self)) == total_money(*old(self)),
            match r {
                Ok(()) => bet_error(*old(self), action) is None && action_applied(
                    *old(self),
                    action,
                    *final(self),
                ),
                Err(e) => bet_error(*old(self), action) == Some(e) && *final(self) == *old(self),
            },
    {
        let i = action.player_index;
        let ghost pre = *self;
        let amt = match action.amount {
            None => {
                return Err(PokerError::IllegalAction);
            },
            Some(amt) => amt,
        };
        if amt <= self.current_bet {
            return Err(PokerError::IllegalAction);
        }
        if self.players[i].chips < amt {
            return Err(PokerError::InsufficientChips);
        }
        proof {
            lemma_chips_sum_ge(pre.players@, i as int);
        }
        let mut p = self.players.remove(i);
        p.chips = p.chips - amt;
        p.current_bet = amt;
        let ghost q = p;
        self.players.insert(i, p);
        self.pot = self.pot + amt;
        self.current_bet = amt;
        proof {
            assert(self.players@ =~= pre.players@.update(i as int, q));
            lemma_wf_after_update(pre, *self, i as int, q);
        }
        Ok(())
    }
}

/// Well-formedness survives a single-seat update that keeps the seat's
/// robot flag, probability and personality, keeps or empties its cards,
/// keeps its committed bet under the (possibly raised) table bet, and moves
/// chips only into the pot.
proof fn lemma_wf_after_update(pre: GameState, post: GameState, i: int, q: Player)
    requires
        state_wf(pre),
        0 <= i < pre.players@.len(),
        post.players@ == pre.players@.update(i, q),
        post.deck@ == pre.deck@,
        post.community_cards@ == pre.community_cards@,
        post.stats == pre.stats,
        post.current_player == pre.current_player,
        player_core_unchanged(pre.players@[i], q),
        q.cards@ == pre.players@[i].cards@ || q.cards@ == Seq::<Card>::empty(),
        q.current_bet <= post.current_bet,
        post.current_bet >= pre.current_bet,
        post.current_bet > pre.current_bet ==> post.current_bet == q.current_bet,
        post.pot == pre.pot + (pre.players@[i].chips - q.chips),
        q.chips <= pre.players@[i].chips,
    ensures
        state_wf(post),
        total_money(post) == total_money(pre),
{
    broadcast use vstd::multiset::group_multiset_axioms;

    lemma_chips_sum_update(pre.players@, i, q);
    assert(post.players@.len() == pre.players@.len());
    assert forall|j: int| 0 <= j < post.players@.len() implies player_wf(
        #[trigger] post.players@[j],
    ) by {
        assert(player_wf(pre.players@[j]));
    }
    assert forall|j: int|
        0 <= j < post.players@.len() implies ((#[trigger] post.players@[j]).is_robot <==> j
        > 0) by {
        assert(pre.players@[j].is_robot <==> j > 0);
    }
    assert(bets_below_table(post)) by {
        assert forall|j: int|
            0 <= j < post.players@.len() implies (#[trigger] post.players@[j]).current_bet
            <= post.current_bet by {
            assert(pre.players@[j].current_bet <= pre.current_bet);
        }
    }
    assert(no_card_duplicated(post)) by {
        assert forall|c: Card| #[trigger] cards_in_play(post).count(c) <= 1 by {
            lemma_holes_ms_update(pre.players@, i, q, c);
            assert(cards_in_play(pre).count(c) <= 1);
            if q.cards@ == pre.players@[i].cards@ {
                assert(q.cards@.to_multiset() == pre.players@[i].cards@.to_multiset());
                assert(holes_ms(post.players@).count(c) == holes_ms(pre.players@).count(c));
            } else {
                vstd::seq_lib::to_multiset_contains(q.cards@, c);
                assert(q.cards@.to_multiset().count(c) == 0);
                assert(holes_ms(post.players@).count(c) <= holes_ms(pre.players@).count(c));
            }
            assert(cards_in_play(post).count(c) <= cards_in_play(pre).count(c));
        }
    }
}

/// The betting-engine invariants: a successful Call leaves the seat's
/// committed bet equal to the table bet; a successful Bet or Raise grows
/// the pot by exactly what the seat was debited; and an action never
/// creates or destroys chips.
pub proof fn lemma_betting_invariants(pre: GameState, a: Action, post: GameState)
    requires
        state_wf(pre),
        a.player_index < pre.players@.len(),
        action_error(pre, a) is None,
        action_applied(pre, a, post),
    ensures
        a.action_type is Call ==> post.players@[a.player_index as int].current_bet
            == post.current_bet,
        (a.action_type is Bet || a.action_type is Raise) ==> post.pot == pre.pot + (
        pre.players@[a.player_index as int].chips - post.players@[a.player_index as int].chips),
        post.pot + chips_sum(post.players@) == pre.pot + chips_sum(pre.players@),
{
    let i = a.player_index as int;
    assert(pre.players@[i].current_bet <= pre.current_bet);
    match a.action_type {
        ActionType::Fold => {
            lemma_chips_sum_update_from(pre.players@, post.players@, i);
        },
        ActionType::Check => {
            lemma_chips_sum_update_from(pre.players@, post.players@, i);
        },
        ActionType::Call => {
            lemma_chips_sum_update_from(pre.players@, post.players@, i);
        },
        ActionType::Bet => {
            lemma_chips_sum_update_from(pre.players@, post.players@, i);
        },
        ActionType::Raise => {
            lemma_chips_sum_update_from(pre.players@, post.players@, i);
        },
    }
}

/// A check against a live table bet is always refused as illegal, so (with
/// `apply_action`'s contract) it never mutates pot, chips, or the table
/// bet.
pub proof fn lemma_check_with_live_bet_rejected(g: GameState, a: Action)
    requires
        a.action_type is Check,
        g.current_bet > 0,
    ensures
        action_error(g, a) == Some(PokerError::IllegalAction),
{
}

/// What the action debits the acting seat (and credits the pot).
pub open spec fn spec_debit(g: GameState, a: Action) -> int {
    match a.action_type {
        ActionType::Fold => 0,
        ActionType::Check => 0,
        ActionType::Call => call_amount_of(g, a.player_index as int),
        ActionType::Bet => a.amount->Some_0 as int,
        ActionType::Raise => a.amount->Some_0 as int,
    }
}

/// The acting seat's committed bet right after the action.
pub open spec fn spec_seat_bet_after(g: GameState, a: Action) -> int {
    let i = a.player_index as int;
    match a.action_type {
        ActionType::Fold => g.players@[i].current_bet as int,
        ActionType::Check => g.players@[i].current_bet as int,
        ActionType::Call => g.players@[i].current_bet + call_amount_of(g, i),
        ActionType::Bet => a.amount->Some_0 as int,
        ActionType::Raise => a.amount->Some_0 as int,
    }
}

/// The table bet right after the action.
pub open spec fn spec_table_after(g: GameState, a: Action) -> int {
    match a.action_type {
        ActionType::Fold => g.current_bet as int,
        ActionType::Check => g.current_bet as int,
        ActionType::Call => g.current_bet as int,
        ActionType::Bet => a.amount->Some_0 as int,
        ActionType::Raise => a.amount->Some_0 as int,
    }
}

/// What the action, by itself, did to the acting seat: the debit, the new
/// committed bet, and the cards kept or mucked.
pub open spec fn seat_effect(pre: GameState, a: Action, post: GameState) -> bool {
    let i = a.player_index as int;
    let p = pre.players@[i];
    let q = post.players@[i];
    &&& q.chips == p.chips - spec_debit(pre, a)
    &&& q.current_bet == spec_seat_bet_after(pre, a)
    &&& q.is_robot == p.is_robot
    &&& (a.action_type is Fold ==> q.cards@ == Seq::<Card>::empty())
    &&& (!(a.action_type is Fold) ==> q.cards@ == p.cards@)
}

impl GameState {
    /// Updates the acting seat's statistics: play count, favourite-action
    /// label, and the biggest pot it has seen. The play count stops at the
    /// counter's maximum instead of overflowing.
    pub fn update_stats(&mut self, action: &Action)
        requires
            action.player_index < old(self).stats.players@.len(),
        ensures
            final(self).deck == old(self).deck,
            final(self).players == old(self).players,
            final(self).community_cards == old(self).community_cards,
            final(self).pot == old(self).pot,
            final(self).current_bet == old(self).current_bet,
            final(self).game_mode == old(self).game_mode,
            final(self).current_player == old(self).current_player,
            final(self).last_action == old(self).last_action,
            final(self).hand_history == old(self).hand_history,
            final(self).stats.start_time == old(self).stats.start_time,
            final(self).stats.end_time == old(self).stats.end_time,
            final(self).stats.total_hands == old(self).stats.total_hands,
            final(self).stats.average_pot == old(self).stats.average_pot,
            final(self).stats.biggest_pot == old(self).stats.biggest_pot,
            final(self).stats.players@.len() == old(self).stats.players@.len(),
            forall|j: int|
                0 <= j < old(self).stats.players@.len() && j != action.player_index
                    ==> #[trigger] final(self).stats.players@[j] == old(self).stats.players@[j],
            ({
                let s0 = old(self).stats.players@[action.player_index as int];
                let s1 = final(self).stats.players@[action.player_index as int];
                &&& s1.games_played == if s0.games_played < u32::MAX {
                    (s0.games_played + 1) as u32
                } else {
                    s0.games_played
                }
                &&& s1.games_won == s0.games_won
                &&& s1.total_profit == s0.total_profit
                &&& s1.best_hand == s0.best_hand
                &&& s1.biggest_pot == if old(self).pot > s0.biggest_pot {
                    old(self).pot
                } else {
                    s0.biggest_pot
                }
                &&& (action.action_type is Bet || action.action_type is Raise)
                    ==> s1.favorite_action@ == "Aggressive"@
                &&& (action.action_type is Check || action.action_type is Call)
                    ==> s1.favorite_action@ == "Conservative"@
                &&& action.action_type is Fold ==> s1.favorite_action == s0.favorite_action
            }),
    {
        let i = action.player_index;
        let ghost pre = *self;
        let mut entry = self.stats.players.remove(i);
        if entry.games_played < u32::MAX {
            entry.games_played = entry.games_played + 1;
        }
        match action.action_type {
            ActionType::Bet => {
                entry.favorite_action = "Aggressive".to_owned();
            },
            ActionType::Raise => {
                entry.favorite_action = "Aggressive".to_owned();
            },
            ActionType::Check => {
                entry.favorite_action = "Conservative".to_owned();
            },
            ActionType::Call => {
                entry.favorite_action = "Conservative".to_owned();
            },
            ActionType::Fold => {},
        }
        if self.pot > entry.biggest_pot {
            entry.biggest_pot = self.pot;
        }
        let ghost q = entry;
        self.stats.players.insert(i, entry);
        proof {
            assert(self.stats.players@ =~= pre.stats.players@.update(i as int, q));
        }
    }

    /// Handles a betting action end to end: applies it, records it as the
    /// last action, passes the turn to the next seat, lets consecutive
    /// robot seats act in turn (each move drawn by the robot policy and
    /// applied under the same legality rules), and finally updates the
    /// acting seats' statistics. A rejected submitted action returns its
    /// error with the state exactly as it was. A robot move can itself be
    /// rejected -- the policy can draw a Bet of `pot * aggression / 200`,
    /// which on an empty pot is a zero bet and illegal -- and its error is
    /// then returned with the moves already made left in place. Either way
    /// the seats' money only moves into the pot, the table bet never goes
    /// down, non-robot seats change only by the submitted action, and a
    /// returned `Ok` leaves the last action recorded and the human seat
    /// (index 0) active again.
    pub fn handle_action(&mut self, action: Action) -> (r: Result<(), PokerError>)
        requires
            state_wf(*old(self)),
            action.player_index < old(self).players@.len(),
        ensures
            state_wf(*final(self)),
            total_money(*final(self)) == total_money(*old(self)),
            final(self).players@.len() == old(self).players@.len(),
            final(self).deck@ == old(self).deck@,
            final(self).community_cards@ == old(self).community_cards@,
            r is Ok ==> final(self).last_action is Some && final(self).current_player == 0,
            match action_error(*old(self), action) {
                Some(e) => r == Err::<(), PokerError>(e) && *final(self) == *old(self),
                None => {
                    let i = action.player_index as int;
                    let p = old(self).players@[i];
                    let q = final(self).players@[i];
                    &&& final(self).pot >= old(self).pot + spec_debit(*old(self), action)
                    &&& final(self).current_bet >= spec_table_after(*old(self), action)
                    &&& (!p.is_robot ==> {
                        &&& q.chips == p.chips - spec_debit(*old(self), action)
                        &&& q.current_bet == spec_seat_bet_after(*old(self), action)
                        &&& (action.action_type is Fold ==> q.cards@ == Seq::<Card>::empty())
                        &&& (!(action.action_type is Fold) ==> q.cards@ == p.cards@)
                    })
                },
            },
    {
        match self.apply_action(action) {
            Err(e) => {
                return Err(e);
            },
            Ok(()) => {},
        }
        let ghost applied = *self;
        self.last_action = Some(action);
        let n = self.players.len();
        self.current_player = (self.current_player + 1) % n;
        let ghost mid = *self;
        proof {
            crate::state::lemma_wf_frame(applied, mid);
        }
        let mut robot_actions: Vec<Action> = Vec::new();
        while self.players[self.current_player].is_robot
            invariant
                state_wf(*self),
                n == self.players@.len(),
                state_wf(mid),
                total_money(*self) == total_money(mid),
                self.players@.len() == mid.players@.len(),
                self.deck@ == mid.deck@,
                self.community_cards@ == mid.community_cards@,
                self.pot >= mid.pot,
                self.current_bet >= mid.current_bet,
                forall|j: int|
                    0 <= j < mid.players@.len() && !(#[trigger] mid.players@[j]).is_robot
                        ==> self.players@[j] == mid.players@[j],
                forall|k: int|
                    0 <= k < robot_actions@.len() ==> (#[trigger] robot_actions@[k]).player_index
                        < n,
                self.last_action is Some,
                action.player_index < old(self).players@.len(),
                action_error(*old(self), action) is None,
                total_money(mid) == total_money(*old(self)),
                mid.players@.len() == old(self).players@.len(),
                mid.deck@ == old(self).deck@,
                mid.community_cards@ == old(self).community_cards@,
                mid.pot == old(self).pot + spec_debit(*old(self), action),
                mid.current_bet == spec_table_after(*old(self), action),
                seat_effect(*old(self), action, mid),
            decreases (if self.current_player == 0 {
                0int
            } else {
                n - self.current_player
            }),
        {
            let seat = self.current_player;
            proof {
                assert((#[trigger] self.players@[seat as int]).is_robot <==> seat as int > 0);
            }
            let personality = self.get_robot_personality();
            let roll = crate::rng::roll_below(200);
            let a = crate::robot::decide_robot_action(
                seat,
                self.current_bet,
                self.pot,
                &personality,
                roll,
            );
            let ghost before = *self;
            match self.apply_action(a) {
                Err(e) => {
                    return Err(e);
                },
                Ok(()) => {},
            }
            let ghost afterwards = *self;
            self.last_action = Some(a);
            robot_actions.push(a);
            self.current_player = (seat + 1) % n;
            proof {
                crate::state::lemma_wf_frame(afterwards, *self);
                if seat + 1 < n {
                    vstd::arithmetic::div_mod::lemma_small_mod((seat + 1) as nat, n as nat);
                } else {
                    vstd::arithmetic::div_mod::lemma_mod_self_0(n as int);
                }
            }
        }
        proof {
            assert((#[trigger] self.players@[self.current_player as int]).is_robot
                <==> self.current_player as int > 0);
            assert(self.current_player == 0);
        }
        let mut k = robot_actions.len();
        while k > 0
            invariant
                k <= robot_actions@.len(),
                self.last_action is Some,
                self.current_player == 0,
                state_wf(*self),
                n == self.players@.len(),
                state_wf(mid),
                total_money(*self) == total_money(mid),
                self.players@.len() == mid.players@.len(),
                self.deck@ == mid.deck@,
                self.community_cards@ == mid.community_cards@,
                self.pot >= mid.pot,
                self.current_bet >= mid.current_bet,
                forall|j: int|
                    0 <= j < mid.players@.len() && !(#[trigger] mid.players@[j]).is_robot
                        ==> self.players@[j] == mid.players@[j],
                forall|m: int|
                    0 <= m < robot_actions@.len() ==> (#[trigger] robot_actions@[m]).player_index
                        < n,
                action.player_index < old(self).players@.len(),
                action_error(*old(self), action) is None,
                total_money(mid) == total_money(*old(self)),
                mid.players@.len() == old(self).players@.len(),
                mid.deck@ == old(self).deck@,
                mid.community_cards@ == old(self).community_cards@,
                mid.pot == old(self).pot + spec_debit(*old(self), action),
                mid.current_bet == spec_table_after(*old(self), action),
                seat_effect(*old(self), action, mid),
            decreases k,
        {
            k = k - 1;
            let ghost before = *self;
            self.update_stats(&robot_actions[k]);
            proof {
                crate::state::lemma_wf_frame(before, *self);
            }
        }
        let ghost before = *self;
        self.update_stats(&action);
        proof {
            crate::state::lemma_wf_frame(before, *self);
        }
        Ok(())
    }
}

/// `chips_sum` over two seat sequences that differ at one index.
proof fn lemma_chips_sum_update_from(pre: Seq<Player>, post: Seq<Player>, i: int)
    requires
        0 <= i < pre.len(),
        post.len() == pre.len(),
        forall|j: int| 0 <= j < pre.len() && j != i ==> post[j] == pre[j],
    ensures
        chips_sum(post) == chips_sum(pre) - pre[i].chips + post[i].chips,
{
    assert(post =~= pre.update(i, post[i]));
    lemma_chips_sum_update(pre, i, post[i]);
}

} // verus!
