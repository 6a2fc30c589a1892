//! Session lifecycle: creating a hand, dealing the board, refreshing every
//! seat's win probability, and recording history.

use vstd::multiset::Multiset;
use vstd::prelude::*;

use crate::cards::{copy_cards, full_deck, Card};
use crate::clock::now_millis;
use crate::equity::{equity_wf, estimate_win_probability, Equity};
use crate::rng::shuffled;
use crate::robot::{catalogue_display_name, catalogue_personality};
use crate::state::{
    cards_in_play, chips_sum, holes_ms, lemma_chips_sum_push, lemma_chips_sum_update,
    lemma_holes_ms_push, lemma_holes_ms_update, lemma_wf_frame, player_wf, state_wf, total_money,
    Action, GameMode, GamePhase, GameState, GameStats, HandHistory, Player, PlayerStats,
    PokerError,
};

verus! {

/// Monte Carlo trials per probability refresh.
pub const NUM_SIMULATIONS: usize = 1000;

/// How `GameState::new` configures seat `i`: the starting stack, two hole
/// cards, nothing committed, the human at seat 0 under the name "You", and
/// a named catalogue personality on every robot seat.
pub open spec fn seat_setup(p: Player, i: int, starting_chips: u32) -> bool {
    &&& p.chips == starting_chips
    &&& p.cards@.len() == 2
    &&& (p.is_robot <==> i > 0)
    &&& p.current_bet == 0
    &&& (p.personality is Some <==> i > 0)
    &&& (i > 0 ==> p.personality->Some_0.aggression == crate::robot::catalogue_aggression(i % 4))
    &&& (i > 0 ==> p.personality->Some_0.bluff_frequency == crate::robot::catalogue_bluff(i % 4))
    &&& (i > 0 ==> p.personality->Some_0.patience == crate::robot::catalogue_patience(i % 4))
    &&& (i > 0 ==> p.personality->Some_0.risk_tolerance == crate::robot::catalogue_risk(i % 4))
    &&& (i > 0 ==> p.name@ == crate::robot::catalogue_display(i % 4))
    &&& (i == 0 ==> p.name@ == "You"@)
}

/// A freshly created per-seat statistics entry: every counter at zero and
/// both labels empty.
pub open spec fn stats_zeroed(s: PlayerStats) -> bool {
    &&& s.games_played == 0
    &&& s.games_won == 0
    &&& s.total_profit == 0
    &&& s.biggest_pot == 0
    &&& s.best_hand@.len() == 0
    &&& s.favorite_action@.len() == 0
}

/// The seat was left as it was, except that its win probability was
/// replaced by a well-formed estimate.
pub open spec fn player_refreshed(p: Player, q: Player) -> bool {
    &&& q.cards == p.cards
    &&& q.chips == p.chips
    &&& q.is_robot == p.is_robot
    &&& q.name == p.name
    &&& q.current_bet == p.current_bet
    &&& q.personality == p.personality
    &&& equity_wf(q.win_probability)
}

/// How many cards a deal of `count` can actually move: it stops at an
/// empty deck or a full board.
pub open spec fn deal_count(g: GameState, count: int) -> int {
    let a = if count <= g.deck@.len() {
        count
    } else {
        g.deck@.len() as int
    };
    let b = 5 - g.community_cards@.len();
    if a <= b {
        a
    } else {
        b
    }
}

/// The deal moved the top `deal_count` cards of the deck, in order, onto
/// the end of the board.
pub open spec fn dealt_to_board(pre: GameState, post: GameState, count: int) -> bool {
    let k = deal_count(pre, count);
    &&& post.deck@ == pre.deck@.take(pre.deck@.len() - k)
    &&& post.community_cards@.len() == pre.community_cards@.len() + k
    &&& forall|m: int|
        0 <= m < pre.community_cards@.len() ==> post.community_cards@[m]
            == pre.community_cards@[m]
    &&& forall|m: int|
        0 <= m < k ==> #[trigger] post.community_cards@[pre.community_cards@.len() + m]
            == pre.deck@[pre.deck@.len() - 1 - m]
}

/// Popping the last element lowers its multiset count by one.
proof fn lemma_pop_ms(pre: Seq<Card>, post: Seq<Card>, c: Card)
    requires
        pre.len() > 0,
        c == pre[pre.len() - 1],
        post == pre.subrange(0, pre.len() - 1),
    ensures
        forall|x: Card|
            #[trigger] post.to_multiset().count(x) == pre.to_multiset().count(x) - (if x == c {
                1int
            } else {
                0int
            }),
        pre.to_multiset().count(c) >= 1,
{
    broadcast use vstd::multiset::group_multiset_axioms;

    assert(post.push(c) =~= pre);
    vstd::seq_lib::to_multiset_build(post, c);
    vstd::seq_lib::to_multiset_contains(pre, c);
    assert(pre.contains(c));
}

/// Pushing an element raises its multiset count by one.
proof fn lemma_push_ms(pre: Seq<Card>, post: Seq<Card>, c: Card)
    requires
        post == pre.push(c),
    ensures
        forall|x: Card|
            #[trigger] post.to_multiset().count(x) == pre.to_multiset().count(x) + (if x == c {
                1int
            } else {
                0int
            }),
{
    broadcast use vstd::multiset::group_multiset_axioms;

    vstd::seq_lib::to_multiset_build(pre, c);
}

/// An empty card sequence holds no card.
proof fn lemma_empty_ms(c: Card)
    ensures
        Seq::<Card>::empty().to_multiset().count(c) == 0,
{
    vstd::seq_lib::to_multiset_contains(Seq::<Card>::empty(), c);
}

/// The counts of a two-card hand.
proof fn lemma_two_cards_ms(cards: Seq<Card>, c1: Card, c2: Card)
    requires
        cards.len() == 2,
        cards[0] == c1,
        cards[1] == c2,
    ensures
        forall|x: Card|
            #[trigger] cards.to_multiset().count(x) == (if x == c1 {
                1int
            } else {
                0int
            }) + (if x == c2 {
                1int
            } else {
                0int
            }),
{
    broadcast use vstd::multiset::group_multiset_axioms;

    assert(cards =~= Seq::<Card>::empty().push(c1).push(c2));
    vstd::seq_lib::to_multiset_build(Seq::<Card>::empty(), c1);
    vstd::seq_lib::to_multiset_build(Seq::<Card>::empty().push(c1), c2);
    assert forall|x: Card|
        #[trigger] cards.to_multiset().count(x) == (if x == c1 {
            1int
        } else {
            0int
        }) + (if x == c2 {
            1int
        } else {
            0int
        }) by {
        lemma_empty_ms(x);
    }
}

/// Well-formedness survives replacing one seat's win probability with a
/// well-formed one.
proof fn lemma_wf_prob_update(pre: GameState, post: GameState, i: int, q: Player)
    requires
        state_wf(pre),
        0 <= i < pre.players@.len(),
        post.players@ == pre.players@.update(i, q),
        post.deck == pre.deck,
        post.community_cards == pre.community_cards,
        post.pot == pre.pot,
        post.current_bet == pre.current_bet,
        post.current_player == pre.current_player,
        post.stats == pre.stats,
        q.cards == pre.players@[i].cards,
        q.chips == pre.players@[i].chips,
        q.is_robot == pre.players@[i].is_robot,
        q.current_bet == pre.players@[i].current_bet,
        q.personality == pre.players@[i].personality,
        equity_wf(q.win_probability),
    ensures
        state_wf(post),
        total_money(post) == total_money(pre),
{
    broadcast use vstd::multiset::group_multiset_axioms;

    lemma_chips_sum_update(pre.players@, i, q);
    assert forall|j: int| 0 <= j < post.players@.len() implies player_wf(
        #[trigger] post.players@[j],
    ) && ((post.players@[j]).is_robot <==> j > 0) && (post.players@[j]).current_bet
        <= post.current_bet by {
        assert(player_wf(pre.players@[j]));
        assert(pre.players@[j].is_robot <==> j > 0);
        assert(pre.players@[j].current_bet <= pre.current_bet);
    }
    assert forall|c: Card| #[trigger] cards_in_play(post).count(c) <= 1 by {
        lemma_holes_ms_update(pre.players@, i, q, c);
        assert(cards_in_play(pre).count(c) <= 1);
        assert(q.cards@.to_multiset() == pre.players@[i].cards@.to_multiset());
        assert(cards_in_play(post).count(c) == cards_in_play(pre).count(c));
    }
}

impl GameState {
    /// Creates a new hand: rejects a seat count outside 2..=8, builds and
    /// shuffles a full deck, deals every seat two hole cards, seats the
    /// human at index 0 and robots (with catalogue personalities) behind,
    /// gives every seat the starting stack, and estimates everyone's win
    /// probability.
    pub fn new(num_players: usize, game_mode: GameMode, starting_chips: u32) -> (r: Result<
        GameState,
        PokerError,
    >)
        requires
            2 <= num_players <= 8 ==> num_players * starting_chips <= u32::MAX,
        ensures
            (2 <= num_players <= 8) <==> r is Ok,
            r is Err ==> r == Err::<GameState, PokerError>(PokerError::ConfigurationError),
            r is Ok ==> ({
                let g = r->Ok_0;
                &&& state_wf(g)
                &&& g.players@.len() == num_players
                &&& g.deck@.len() == 52 - 2 * num_players
                &&& g.community_cards@.len() == 0
                &&& g.pot == 0
                &&& g.current_bet == 0
                &&& g.current_player == 0
                &&& g.game_mode == game_mode
                &&& g.last_action is None
                &&& g.hand_history@.len() == 0
                &&& g.stats.players@.len() == num_players
                &&& forall|i: int|
                    0 <= i < num_players ==> stats_zeroed(#[trigger] g.stats.players@[i])
                &&& forall|i: int|
                    0 <= i < num_players ==> seat_setup(
                        #[trigger] g.players@[i],
                        i,
                        starting_chips,
                    )
            }),
    {
        if num_players < 2 || num_players > 8 {
            return Err(PokerError::ConfigurationError);
        }
        let base = full_deck();
        let mut deck = shuffled(&base);
        proof {
            base@.lemma_multiset_has_no_duplicates();
            assert forall|c: Card| #[trigger] deck@.to_multiset().count(c) + holes_ms(
                Seq::<Player>::empty(),
            ).count(c) <= 1 by {
                vstd::seq_lib::to_multiset_contains(base@, c);
                assert(deck@.to_multiset().count(c) == base@.to_multiset().count(c));
                broadcast use vstd::multiset::group_multiset_axioms;

            }
        }
        let mut players: Vec<Player> = Vec::new();
        let mut i: usize = 0;
        while i < num_players
            invariant
                2 <= num_players <= 8,
                i <= num_players,
                players@.len() == i,
                deck@.len() == 52 - 2 * i,
                num_players * starting_chips <= u32::MAX,
                chips_sum(players@) == i * starting_chips,
                forall|c: Card|
                    #[trigger] deck@.to_multiset().count(c) + holes_ms(players@).count(c) <= 1,
                forall|j: int|
                    0 <= j < i ==> seat_setup(#[trigger] players@[j], j, starting_chips)
                        && player_wf(players@[j]),
            decreases num_players - i,
        {
            let ghost deck0 = deck@;
            let c1 = deck.pop().unwrap();
            let ghost deck1 = deck@;
            let c2 = deck.pop().unwrap();
            let is_robot = i > 0;
            let personality = if is_robot {
                Some(catalogue_personality(i))
            } else {
                None
            };
            let name = if is_robot {
                catalogue_display_name(i)
            } else {
                "You".to_owned()
            };
            let mut cards: Vec<Card> = Vec::new();
            cards.push(c1);
            cards.push(c2);
            let p = Player {
                cards,
                win_probability: Equity { num: 0, den: 1 },
                chips: starting_chips,
                is_robot,
                name,
                current_bet: 0,
                personality,
            };
            let ghost players0 = players@;
            let ghost pv = p;
            players.push(p);
            proof {
                lemma_pop_ms(deck0, deck1, c1);
                lemma_pop_ms(deck1, deck@, c2);
                lemma_holes_ms_push(players0, pv);
                lemma_two_cards_ms(pv.cards@, c1, c2);
                broadcast use vstd::multiset::group_multiset_axioms;

                assert forall|c: Card|
                    #[trigger] deck@.to_multiset().count(c) + holes_ms(players@).count(c)
                        <= 1 by {
                    assert(deck0.to_multiset().count(c) + holes_ms(players0).count(c) <= 1);
                }
                lemma_chips_sum_push(players0, pv);
                assert((i + 1) * starting_chips == i * starting_chips + starting_chips) by (
                nonlinear_arith);
            }
            i = i + 1;
        }
        let mut stats_players: Vec<PlayerStats> = Vec::new();
        let mut s: usize = 0;
        while s < num_players
            invariant
                s <= num_players,
                stats_players@.len() == s,
                forall|j: int| 0 <= j < s ==> stats_zeroed(#[trigger] stats_players@[j]),
            decreases num_players - s,
        {
            stats_players.push(
                PlayerStats {
                    games_played: 0,
                    games_won: 0,
                    total_profit: 0,
                    biggest_pot: 0,
                    best_hand: String::new(),
                    favorite_action: String::new(),
                },
            );
            s = s + 1;
        }
        let start_time = now_millis();
        let mut game = GameState {
            deck,
            players,
            community_cards: Vec::new(),
            pot: 0,
            current_bet: 0,
            game_mode,
            current_player: 0,
            last_action: None,
            stats: GameStats {
                start_time,
                end_time: None,
                players: stats_players,
                total_hands: 0,
                average_pot: 0,
                biggest_pot: 0,
            },
            hand_history: Vec::new(),
        };
        proof {
            assert(state_wf(game)) by {
                assert(chips_sum(game.players@) == num_players * starting_chips);
                assert forall|c: Card| #[trigger] cards_in_play(game).count(c) <= 1 by {
                    lemma_empty_ms(c);
                    broadcast use vstd::multiset::group_multiset_axioms;

                }
            }
        }
        game.update_probabilities();
        Ok(game)
    }

    /// Recomputes every seat's cached win probability from the current
    /// board and undealt deck: each live seat (2 hole cards) gets a fresh
    /// Monte Carlo estimate against all other seats' hole cards; any other
    /// seat gets probability zero. Nothing else changes.
    pub fn update_probabilities(&mut self)
        requires
            state_wf(*old(self)),
        ensures
            state_wf(*final(self)),
            final(self).deck == old(self).deck,
            final(self).community_cards == old(self).community_cards,
            final(self).pot == old(self).pot,
            final(self).current_bet == old(self).current_bet,
            final(self).game_mode == old(self).game_mode,
            final(self).current_player == old(self).current_player,
            final(self).last_action == old(self).last_action,
            final(self).stats == old(self).stats,
            final(self).hand_history == old(self).hand_history,
            final(self).players@.len() == old(self).players@.len(),
            forall|i: int|
                0 <= i < old(self).players@.len() ==> player_refreshed(
                    old(self).players@[i],
                    #[trigger] final(self).players@[i],
                ),
            forall|i: int|
                0 <= i < old(self).players@.len() && old(self).players@[i].cards@.len() != 2
                    ==> (#[trigger] final(self).players@[i]).win_probability == (Equity {
                    num: 0,
                    den: 1,
                }),
            forall|i: int|
                0 <= i < old(self).players@.len() && old(self).players@[i].cards@.len() == 2 && old(
                    self,
                ).deck@.len() + old(self).community_cards@.len() < 5 ==> (
                #[trigger] final(self).players@[i]).win_probability == (Equity {
                    num: 1,
                    den: old(self).players@.len() as u64,
                }),
            forall|i: int|
                0 <= i < old(self).players@.len() && old(self).players@[i].cards@.len() == 2 && old(
                    self,
                ).deck@.len() + old(self).community_cards@.len() >= 5 ==> (
                #[trigger] final(self).players@[i]).win_probability.den == crate::equity::TRIAL_UNIT
                    * (NUM_SIMULATIONS as u64),
    {
        let n = self.players.len();
        let mut i: usize = 0;
        while i < n
            invariant
                state_wf(*self),
                n == old(self).players@.len(),
                i <= n,
                self.players@.len() == n,
                self.deck == old(self).deck,
                self.community_cards == old(self).community_cards,
                self.pot == old(self).pot,
                self.current_bet == old(self).current_bet,
                self.game_mode == old(self).game_mode,
                self.current_player == old(self).current_player,
                self.last_action == old(self).last_action,
                self.stats == old(self).stats,
                self.hand_history == old(self).hand_history,
                forall|j: int| i <= j < n ==> #[trigger] self.players@[j] == old(self).players@[j],
                forall|j: int|
                    0 <= j < i ==> player_refreshed(
                        old(self).players@[j],
                        #[trigger] self.players@[j],
                    ),
                forall|j: int|
                    0 <= j < i && old(self).players@[j].cards@.len() != 2 ==> (
                    #[trigger] self.players@[j]).win_probability == (Equity { num: 0, den: 1 }),
                forall|j: int|
                    0 <= j < i && old(self).players@[j].cards@.len() == 2 && old(self).deck@.len()
                        + old(self).community_cards@.len() < 5 ==> (
                    #[trigger] self.players@[j]).win_probability == (Equity {
                        num: 1,
                        den: n as u64,
                    }),
                forall|j: int|
                    0 <= j < i && old(self).players@[j].cards@.len() == 2 && old(self).deck@.len()
                        + old(self).community_cards@.len() >= 5 ==> (
                    #[trigger] self.players@[j]).win_probability.den == crate::equity::TRIAL_UNIT
                        * (NUM_SIMULATIONS as u64),
            decreases n - i,
        {
            let ghost pre = *self;
            let live = self.players[i].cards.len() == 2;
            let prob = if live {
                let mut opponents: Vec<Vec<Card>> = Vec::new();
                let mut j: usize = 0;
                while j < n
                    invariant
                        j <= n,
                        i < n,
                        n == self.players@.len(),
                        opponents@.len() == (if j <= i {
                            j as int
                        } else {
                            j - 1
                        }),
                    decreases n - j,
                {
                    if j != i {
                        opponents.push(copy_cards(&self.players[j].cards));
                    }
                    j = j + 1;
                }
                estimate_win_probability(
                    &self.players[i].cards,
                    &opponents,
                    &self.community_cards,
                    &self.deck,
                    NUM_SIMULATIONS,
                )
            } else {
                Equity { num: 0, den: 1 }
            };
            let mut p = self.players.remove(i);
            p.win_probability = prob;
            let ghost q = p;
            self.players.insert(i, p);
            proof {
                assert(self.players@ =~= pre.players@.update(i as int, q));
                lemma_wf_prob_update(pre, *self, i as int, q);
            }
            i = i + 1;
        }
    }

    /// Deals up to `count` cards from the top of the deck onto the board,
    /// stopping early if the deck runs out or the board is full.
    fn deal_community(&mut self, count: usize)
        requires
            state_wf(*old(self)),
        ensures
            state_wf(*final(self)),
            dealt_to_board(*old(self), *final(self), count as int),
            final(self).players == old(self).players,
            final(self).pot == old(self).pot,
            final(self).current_bet == old(self).current_bet,
            final(self).game_mode == old(self).game_mode,
            final(self).current_player == old(self).current_player,
            final(self).last_action == old(self).last_action,
            final(self).stats == old(self).stats,
            final(self).hand_history == old(self).hand_history,
    {
        let ghost pre = *self;
        let mut t: usize = 0;
        while t < count && self.deck.len() > 0 && self.community_cards.len() < 5
            invariant
                state_wf(*self),
                t <= count,
                t <= pre.deck@.len(),
                self.deck@ == pre.deck@.take(pre.deck@.len() - t),
                self.community_cards@.len() == pre.community_cards@.len() + t,
                forall|m: int|
                    0 <= m < pre.community_cards@.len() ==> #[trigger] self.community_cards@[m]
                        == pre.community_cards@[m],
                forall|m: int|
                    0 <= m < t ==> #[trigger] self.community_cards@[pre.community_cards@.len() + m]
                        == pre.deck@[pre.deck@.len() - 1 - m],
                self.players == pre.players,
                self.pot == pre.pot,
                self.current_bet == pre.current_bet,
                self.game_mode == pre.game_mode,
                self.current_player == pre.current_player,
                self.last_action == pre.last_action,
                self.stats == pre.stats,
                self.hand_history == pre.hand_history,
                state_wf(pre),
            decreases count - t,
        {
            let ghost before = *self;
            let c = self.deck.pop().unwrap();
            let ghost deck_after = self.deck@;
            let ghost board_before = self.community_cards@;
            self.community_cards.push(c);
            proof {
                lemma_pop_ms(before.deck@, deck_after, c);
                lemma_push_ms(board_before, self.community_cards@, c);
                assert(self.deck@ =~= pre.deck@.take(pre.deck@.len() - (t + 1)));
                assert forall|x: Card| #[trigger] cards_in_play(*self).count(x) <= 1 by {
                    broadcast use vstd::multiset::group_multiset_axioms;

                    assert(cards_in_play(before).count(x) <= 1);
                }
                assert(state_wf(*self)) by {
                    assert forall|j: int| 0 <= j < self.players@.len() implies player_wf(
                        #[trigger] self.players@[j],
                    ) && ((self.players@[j]).is_robot <==> j > 0)
                        && (self.players@[j]).current_bet <= self.current_bet by {
                        assert(player_wf(before.players@[j]));
                        assert(before.players@[j].is_robot <==> j > 0);
                        assert(before.players@[j].current_bet <= before.current_bet);
                    }
                }
            }
            t = t + 1;
        }
    }

    /// Deals the flop: moves three cards from the deck to the board and
    /// refreshes every seat's win probability.
    pub fn deal_flop(&mut self)
        requires
            state_wf(*old(self)),
        ensures
            state_wf(*final(self)),
            dealt_to_board(*old(self), *final(self), 3),
            deal_aftermath(*old(self), *final(self)),
    {
        self.deal_community(3);
        self.update_probabilities();
    }

    /// Deals the turn: moves one card from the deck to the board and
    /// refreshes every seat's win probability.
    pub fn deal_turn(&mut self)
        requires
            state_wf(*old(self)),
        ensures
            state_wf(*final(self)),
            dealt_to_board(*old(self), *final(self), 1),
            deal_aftermath(*old(self), *final(self)),
    {
        self.deal_community(1);
        self.update_probabilities();
    }

    /// Deals the river: moves one card from the deck to the board and
    /// refreshes every seat's win probability.
    pub fn deal_river(&mut self)
        requires
            state_wf(*old(self)),
        ensures
            state_wf(*final(self)),
            dealt_to_board(*old(self), *final(self), 1),
            deal_aftermath(*old(self), *final(self)),
    {
        self.deal_community(1);
        self.update_probabilities();
    }

    /// Opens a new hand-history entry, timestamped now, in the pre-flop
    /// phase, with nothing recorded yet.
    pub fn start_new_hand(&mut self)
        requires
            state_wf(*old(self)),
        ensures
            state_wf(*final(self)),
            final(self).deck == old(self).deck,
            final(self).players == old(self).players,
            final(self).community_cards == old(self).community_cards,
            final(self).pot == old(self).pot,
            final(self).current_bet == old(self).current_bet,
            final(self).game_mode == old(self).game_mode,
            final(self).current_player == old(self).current_player,
            final(self).last_action == old(self).last_action,
            final(self).stats == old(self).stats,
            final(self).hand_history@.len() == old(self).hand_history@.len() + 1,
            forall|j: int|
                0 <= j < old(self).hand_history@.len() ==> #[trigger] final(self).hand_history@[j]
                    == old(self).hand_history@[j],
            ({
                let h = final(self).hand_history@.last();
                &&& h.phase == GamePhase::PreFlop
                &&& h.actions@.len() == 0
                &&& h.pot_size == 0
                &&& h.community_cards@.len() == 0
                &&& h.player_cards@.len() == 0
                &&& h.winner is None
            }),
    {
        let ghost pre = *self;
        let timestamp = now_millis();
        self.hand_history.push(
            HandHistory {
                timestamp,
                phase: GamePhase::PreFlop,
                actions: Vec::new(),
                pot_size: 0,
                community_cards: Vec::new(),
                player_cards: Vec::new(),
                winner: None,
            },
        );
        proof {
            lemma_wf_frame(pre, *self);
        }
    }

    /// Records an action in the current hand-history entry (if one is
    /// open), together with snapshots of the pot, the board, and every
    /// seat's hole cards.
    pub fn record_action(&mut self, action: &Action)
        requires
            state_wf(*old(self)),
        ensures
            state_wf(*final(self)),
            final(self).deck == old(self).deck,
            final(self).players == old(self).players,
            final(self).community_cards == old(self).community_cards,
            final(self).pot == old(self).pot,
            final(self).current_bet == old(self).current_bet,
            final(self).game_mode == old(self).game_mode,
            final(self).current_player == old(self).current_player,
            final(self).last_action == old(self).last_action,
            final(self).stats == old(self).stats,
            old(self).hand_history@.len() == 0 ==> final(self).hand_history == old(
                self,
            ).hand_history,
            old(self).hand_history@.len() > 0 ==> ({
                let h0 = old(self).hand_history@.last();
                let h = final(self).hand_history@.last();
                &&& final(self).hand_history@.len() == old(self).hand_history@.len()
                &&& forall|j: int|
                    0 <= j < old(self).hand_history@.len() - 1
                        ==> #[trigger] final(self).hand_history@[j] == old(self).hand_history@[j]
                &&& h.actions@ == h0.actions@.push(*action)
                &&& h.pot_size == old(self).pot
                &&& h.community_cards@ == old(self).community_cards@
                &&& h.player_cards@.len() == old(self).players@.len()
                &&& forall|j: int|
                    0 <= j < old(self).players@.len() ==> (#[trigger] h.player_cards@[j])@ == old(
                        self,
                    ).players@[j].cards@
                &&& h.timestamp == h0.timestamp
                &&& h.phase == h0.phase
                &&& h.winner == h0.winner
            }),
    {
        let ghost pre = *self;
        let len = self.hand_history.len();
        if len == 0 {
            return;
        }
        let mut h = self.hand_history.remove(len - 1);
        h.actions.push(*action);
        h.pot_size = self.pot;
        h.community_cards = copy_cards(&self.community_cards);
        let mut snapshot: Vec<Vec<Card>> = Vec::new();
        let mut j: usize = 0;
        let n = self.players.len();
        while j < n
            invariant
                j <= n,
                n == self.players@.len(),
                snapshot@.len() == j,
                forall|m: int|
                    0 <= m < j ==> (#[trigger] snapshot@[m])@ == self.players@[m].cards@,
            decreases n - j,
        {
            snapshot.push(copy_cards(&self.players[j].cards));
            j = j + 1;
        }
        h.player_cards = snapshot;
        self.hand_history.push(h);
        proof {
            lemma_wf_frame(pre, *self);
            assert(self.hand_history@.last().actions@ == pre.hand_history@.last().actions@.push(
                *action,
            ));
        }
    }
}

/// What a deal leaves untouched, and how it refreshes the seats: the money
/// fields and statistics stay, and every seat keeps everything but its win
/// probability, which is freshly estimated (zero for a seat without two
/// hole cards).
pub open spec fn deal_aftermath(pre: GameState, post: GameState) -> bool {
    &&& post.pot == pre.pot
    &&& post.current_bet == pre.current_bet
    &&& post.game_mode == pre.game_mode
    &&& post.current_player == pre.current_player
    &&& post.last_action == pre.last_action
    &&& post.stats == pre.stats
    &&& post.hand_history == pre.hand_history
    &&& post.players@.len() == pre.players@.len()
    &&& forall|i: int|
        0 <= i < pre.players@.len() ==> player_refreshed(
            pre.players@[i],
            #[trigger] post.players@[i],
        )
    &&& forall|i: int|
        0 <= i < pre.players@.len() && pre.players@[i].cards@.len() != 2 ==> (
        #[trigger] post.players@[i]).win_probability == (Equity { num: 0, den: 1 })
    &&& forall|i: int|
        0 <= i < pre.players@.len() && pre.players@[i].cards@.len() == 2 && post.deck@.len()
            + post.community_cards@.len() >= 5 ==> (
        #[trigger] post.players@[i]).win_probability.den == crate::equity::TRIAL_UNIT * (
        NUM_SIMULATIONS as u64)
}

} // verus!
