//! Session data model: players, statistics, history, errors, and the
//! game-state well-formedness invariant.

use vstd::multiset::Multiset;
use vstd::prelude::*;

use crate::cards::Card;
use crate::equity::{equity_wf, Equity};

verus! {

/// How the table is driven: a pure simulation, or robots playing out seats.
#[derive(Debug, Clone, Copy, PartialEq, Eq, Structural)]
pub enum GameMode {
    Simulation,
    RobotPlay,
}

/// The betting moves a seat can make.
#[derive(Debug, Clone, Copy, PartialEq, Eq, Structural)]
pub enum ActionType {
    Fold,
    Check,
    Call,
    Bet,
    Raise,
}

/// One betting action: who acts, what they do, and the amount for Bet and
/// Raise (ignored otherwise).
#[derive(Debug, Clone, Copy)]
pub struct Action {
    pub player_index: usize,
    pub action_type: ActionType,
    pub amount: Option<u32>,
}

/// Phases of a hand.
#[derive(Debug, Clone, Copy, PartialEq, Eq, Structural)]
pub enum GamePhase {
    PreFlop,
    Flop,
    Turn,
    River,
    Showdown,
}

/// Why an operation was refused.
#[derive(Debug, Clone, Copy, PartialEq, Eq, Structural)]
pub enum PokerError {
    /// The requested seat count is outside 2..=8; fatal at creation time.
    ConfigurationError,
    /// The action is not legal in the current state; nothing was mutated.
    IllegalAction,
    /// The seat cannot cover the amount; nothing was mutated.
    InsufficientChips,
    /// No session exists to act on; the boundary layer falls back to a
    /// fresh session.
    NoActiveSession,
}

impl PokerError {
    /// A user-facing description of the error.
    pub fn message(&self) -> (m: String)
        ensures
            self is ConfigurationError ==> m@ == "Number of players must be between 2 and 8"@,
            self is IllegalAction ==> m@ == "Action is not allowed now"@,
            self is InsufficientChips ==> m@ == "Not enough chips"@,
            self is NoActiveSession ==> m@ == "No active game"@,
    {
        match self {
            PokerError::ConfigurationError => "Number of players must be between 2 and 8".to_owned(),
            PokerError::IllegalAction => "Action is not allowed now".to_owned(),
            PokerError::InsufficientChips => "Not enough chips".to_owned(),
            PokerError::NoActiveSession => "No active game".to_owned(),
        }
    }
}

/// A fixed behaviour profile for a robot seat. The weights are percentages
/// in 0..=100.
#[derive(Debug, Clone)]
pub struct RobotPersonality {
    pub name: String,
    pub emoji: String,
    pub style: String,
    pub description: String,
    pub aggression: u32,
    pub bluff_frequency: u32,
    pub patience: u32,
    pub risk_tolerance: u32,
}

/// Every personality weight is a percentage.
pub open spec fn personality_wf(p: RobotPersonality) -> bool {
    p.aggression <= 100 && p.bluff_frequency <= 100 && p.patience <= 100 && p.risk_tolerance
        <= 100
}

/// One seat at the table.
#[derive(Debug, Clone)]
pub struct Player {
    /// 2 hole cards while live, none after folding.
    pub cards: Vec<Card>,
    /// The cached Monte Carlo estimate of this seat's chance to win.
    pub win_probability: Equity,
    pub chips: u32,
    pub is_robot: bool,
    pub name: String,
    /// The amount this seat has committed in the current round.
    pub current_bet: u32,
    /// Present on robot seats only.
    pub personality: Option<RobotPersonality>,
}

pub open spec fn player_wf(p: Player) -> bool {
    &&& p.cards@.len() == 0 || p.cards@.len() == 2
    &&& equity_wf(p.win_probability)
    &&& match p.personality {
        Some(q) => personality_wf(q),
        None => true,
    }
}

/// Per-seat lifetime statistics.
#[derive(Debug, Clone)]
pub struct PlayerStats {
    pub games_played: u32,
    pub games_won: u32,
    pub total_profit: i32,
    pub biggest_pot: u32,
    pub best_hand: String,
    pub favorite_action: String,
}

/// Whole-session statistics. Times are milliseconds since the Unix epoch.
#[derive(Debug, Clone)]
pub struct GameStats {
    pub start_time: i64,
    pub end_time: Option<i64>,
    pub players: Vec<PlayerStats>,
    pub total_hands: u32,
    pub average_pot: u32,
    pub biggest_pot: u32,
}

/// A recorded hand: when it started, what was played, and the snapshots
/// taken as actions were recorded.
#[derive(Debug, Clone)]
pub struct HandHistory {
    pub timestamp: i64,
    pub phase: GamePhase,
    pub actions: Vec<Action>,
    pub pot_size: u32,
    pub community_cards: Vec<Card>,
    pub player_cards: Vec<Vec<Card>>,
    pub winner: Option<usize>,
}

/// The authoritative state of one session.
#[derive(Debug, Clone)]
pub struct GameState {
    pub deck: Vec<Card>,
    pub players: Vec<Player>,
    pub community_cards: Vec<Card>,
    pub pot: u32,
    /// The highest single-round commitment so far (the table bet).
    pub current_bet: u32,
    pub game_mode: GameMode,
    pub current_player: usize,
    pub last_action: Option<Action>,
    pub stats: GameStats,
    pub hand_history: Vec<HandHistory>,
}

/// Parameters of a session-creation request.
#[derive(Debug, Clone, Copy)]
pub struct NewGameQuery {
    pub num_players: usize,
    pub game_mode: GameMode,
    pub starting_chips: u32,
}

/// An action request for the human seat.
#[derive(Debug, Clone, Copy)]
pub struct PlayerAction {
    pub action_type: ActionType,
    pub amount: Option<u32>,
}

/// Total chips held by the seats.
pub open spec fn chips_sum(players: Seq<Player>) -> int
    decreases players.len(),
{
    if players.len() == 0 {
        0
    } else {
        chips_sum(players.drop_last()) + players.last().chips
    }
}

/// Pot plus all chip stacks: the money in the game.
pub open spec fn total_money(g: GameState) -> int {
    g.pot + chips_sum(g.players@)
}

/// The multiset of all hole cards held by the seats.
pub open spec fn holes_ms(players: Seq<Player>) -> Multiset<Card>
    decreases players.len(),
{
    if players.len() == 0 {
        Multiset::<Card>::empty()
    } else {
        holes_ms(players.drop_last()).add(players.last().cards@.to_multiset())
    }
}

/// Every card in the deck, in a hand, or on the board.
pub open spec fn cards_in_play(g: GameState) -> Multiset<Card> {
    g.deck@.to_multiset().add(holes_ms(g.players@)).add(g.community_cards@.to_multiset())
}

/// No card occurs twice anywhere in the game.
pub open spec fn no_card_duplicated(g: GameState) -> bool {
    forall|c: Card| cards_in_play(g).count(c) <= 1
}

/// Every seat's committed amount is covered by the table bet.
pub open spec fn bets_below_table(g: GameState) -> bool {
    forall|i: int|
        0 <= i < g.players@.len() ==> (#[trigger] g.players@[i]).current_bet <= g.current_bet
}

/// The state invariant: a legal table layout (2-8 seats, seat 0 human, the
/// rest robots), an active seat in range, per-seat statistics aligned with
/// the seats, a board of at most 5 cards, well-formed seats, money that
/// fits a chip counter, committed bets covered by the table bet, and no
/// duplicated card.
pub open spec fn state_wf(g: GameState) -> bool {
    &&& 2 <= g.players@.len() <= 8
    &&& g.current_player < g.players@.len()
    &&& forall|i: int|
        0 <= i < g.players@.len() ==> ((#[trigger] g.players@[i]).is_robot <==> i > 0)
    &&& g.stats.players@.len() == g.players@.len()
    &&& g.community_cards@.len() <= 5
    &&& forall|i: int| 0 <= i < g.players@.len() ==> player_wf(#[trigger] g.players@[i])
    &&& total_money(g) <= u32::MAX
    &&& bets_below_table(g)
    &&& no_card_duplicated(g)
}

/// `chips_sum` under a single-seat replacement.
pub proof fn lemma_chips_sum_update(players: Seq<Player>, i: int, p: Player)
    requires
        0 <= i < players.len(),
    ensures
        chips_sum(players.update(i, p)) == chips_sum(players) - players[i].chips + p.chips,
    decreases players.len(),
{
    let n = players.len() as int;
    if i == n - 1 {
        assert(players.update(i, p).drop_last() =~= players.drop_last());
    } else {
        assert(players.update(i, p).drop_last() =~= players.drop_last().update(i, p));
        lemma_chips_sum_update(players.drop_last(), i, p);
    }
}

/// `holes_ms` counts under a single-seat replacement.
pub proof fn lemma_holes_ms_update(players: Seq<Player>, i: int, p: Player, c: Card)
    requires
        0 <= i < players.len(),
    ensures
        holes_ms(players.update(i, p)).count(c) + players[i].cards@.to_multiset().count(c)
            == holes_ms(players).count(c) + p.cards@.to_multiset().count(c),
    decreases players.len(),
{
    broadcast use vstd::multiset::group_multiset_axioms;

    let n = players.len() as int;
    if i == n - 1 {
        assert(players.update(i, p).drop_last() =~= players.drop_last());
    } else {
        assert(players.update(i, p).drop_last() =~= players.drop_last().update(i, p));
        lemma_holes_ms_update(players.drop_last(), i, p, c);
    }
}

/// `chips_sum` over one more seat.
pub proof fn lemma_chips_sum_push(players: Seq<Player>, p: Player)
    ensures
        chips_sum(players.push(p)) == chips_sum(players) + p.chips,
{
    assert(players.push(p).drop_last() =~= players);
}

/// `holes_ms` over one more seat.
pub proof fn lemma_holes_ms_push(players: Seq<Player>, p: Player)
    ensures
        holes_ms(players.push(p)) == holes_ms(players).add(p.cards@.to_multiset()),
{
    assert(players.push(p).drop_last() =~= players);
}

/// Well-formedness only reads the seats, the cards, the money fields, the
/// active seat, and the statistics' seat count: a state that keeps those
/// keeps the invariant.
pub proof fn lemma_wf_frame(a: GameState, b: GameState)
    requires
        state_wf(a),
        b.players == a.players,
        b.deck == a.deck,
        b.community_cards == a.community_cards,
        b.pot == a.pot,
        b.current_bet == a.current_bet,
        b.current_player < b.players@.len(),
        b.stats.players@.len() == a.stats.players@.len(),
    ensures
        state_wf(b),
        total_money(b) == total_money(a),
{
    assert(b.players@ == a.players@);
    assert forall|j: int| 0 <= j < b.players@.len() implies player_wf(#[trigger] b.players@[j])
        && ((b.players@[j]).is_robot <==> j > 0) && (b.players@[j]).current_bet
        <= b.current_bet by {
        assert(player_wf(a.players@[j]));
        assert(a.players@[j].is_robot <==> j > 0);
        assert(a.players@[j].current_bet <= a.current_bet);
    }
    assert(chips_sum(b.players@) == chips_sum(a.players@));
    assert forall|c: Card| #[trigger] cards_in_play(b).count(c) <= 1 by {
        assert(holes_ms(b.players@) == holes_ms(a.players@));
        assert(cards_in_play(b).count(c) == cards_in_play(a).count(c));
        assert(cards_in_play(a).count(c) <= 1);
    }
}


} // verus!
