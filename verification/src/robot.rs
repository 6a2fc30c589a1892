//! The robot seats' betting policy and their personality catalogue.
//!
//! A robot's move is a weighted random choice driven by one draw `roll`
//! in 0..200 and its personality's aggression percentage: with no live bet
//! it checks with probability `1 - aggression`, else bets about half the
//! pot scaled by aggression; against a live bet it folds with probability
//! `(1 - aggression) / 2`, calls up to cumulative `1 - aggression`, else
//! raises to about `current_bet * (1 + aggression)`. The other personality
//! weights are carried in the data model but not consumed by this policy.

use vstd::prelude::*;

use crate::state::{Action, ActionType, GameState, RobotPersonality};

verus! {

/// Aggression percentage of the catalogue personality at index `k`.
pub open spec fn catalogue_aggression(k: int) -> u32 {
    if k == 0 {
        70
    } else if k == 1 {
        50
    } else if k == 2 {
        80
    } else {
        30
    }
}

/// Bluff-frequency percentage of the catalogue personality at index `k`.
pub open spec fn catalogue_bluff(k: int) -> u32 {
    if k == 0 {
        30
    } else if k == 1 {
        60
    } else if k == 2 {
        80
    } else {
        20
    }
}

/// Patience percentage of the catalogue personality at index `k`.
pub open spec fn catalogue_patience(k: int) -> u32 {
    if k == 0 {
        80
    } else if k == 1 {
        40
    } else if k == 2 {
        30
    } else {
        90
    }
}

/// Risk-tolerance percentage of the catalogue personality at index `k`.
pub open spec fn catalogue_risk(k: int) -> u32 {
    if k == 0 {
        60
    } else if k == 1 {
        80
    } else if k == 2 {
        90
    } else {
        30
    }
}

/// The move a robot makes for a draw `roll` in 0..200, table bet
/// `table_bet`, pot `pot`, and aggression percentage `aggr`.
pub open spec fn robot_action_type(table_bet: u32, roll: u32, aggr: u32) -> ActionType {
    if table_bet == 0 {
        if roll < 200 - 2 * aggr {
            ActionType::Check
        } else {
            ActionType::Bet
        }
    } else {
        if roll < 100 - aggr {
            ActionType::Fold
        } else if roll < 200 - 2 * aggr {
            ActionType::Call
        } else {
            ActionType::Raise
        }
    }
}

/// The amount attached to the robot's move: about half the pot scaled by
/// aggression for a fresh bet, about `table_bet * (1 + aggression)` for a
/// raise (clamped to the chip counter), nothing otherwise.
pub open spec fn robot_action_amount(table_bet: u32, pot: u32, roll: u32, aggr: u32) -> Option<
    u32,
> {
    match robot_action_type(table_bet, roll, aggr) {
        ActionType::Bet => Some(((pot * aggr) / 200) as u32),
        ActionType::Raise => {
            let raised = (table_bet * (100 + aggr)) / 100;
            if raised > u32::MAX {
                Some(u32::MAX)
            } else {
                Some(raised as u32)
            }
        },
        _ => None,
    }
}

/// Decides a robot seat's action from the table bet, the pot, its
/// personality, and one random draw `roll` in 0..200.
pub fn decide_robot_action(
    seat: usize,
    table_bet: u32,
    pot: u32,
    personality: &RobotPersonality,
    roll: u32,
) -> (a: Action)
    requires
        roll < 200,
        personality.aggression <= 100,
    ensures
        a.player_index == seat,
        a.action_type == robot_action_type(table_bet, roll, personality.aggression),
        a.amount == robot_action_amount(table_bet, pot, roll, personality.aggression),
{
    let aggr = personality.aggression;
    if table_bet == 0 {
        if roll < 200 - 2 * aggr {
            Action { player_index: seat, action_type: ActionType::Check, amount: None }
        } else {
            let pu: u64 = pot as u64;
            let au: u64 = aggr as u64;
            proof {
                assert(pu * au <= 0xffff_ffffu64 * 100 && (pu * au) / 200 <= pu) by (
                nonlinear_arith)
                    requires
                        pu <= 0xffff_ffffu64,
                        au <= 100,
                ;
            }
            let amount = ((pu * au) / 200) as u32;
            Action { player_index: seat, action_type: ActionType::Bet, amount: Some(amount) }
        }
    } else {
        if roll < 100 - aggr {
            Action { player_index: seat, action_type: ActionType::Fold, amount: None }
        } else if roll < 200 - 2 * aggr {
            Action { player_index: seat, action_type: ActionType::Call, amount: None }
        } else {
            let tu: u64 = table_bet as u64;
            let au: u64 = aggr as u64;
            proof {
                assert(tu * (100 + au) <= 0xffff_ffffu64 * 200) by (nonlinear_arith)
                    requires
                        tu <= 0xffff_ffffu64,
                        au <= 100,
                ;
            }
            let raised = (tu * (100 + au)) / 100;
            let amount = if raised > u32::MAX as u64 {
                u32::MAX
            } else {
                raised as u32
            };
            Action { player_index: seat, action_type: ActionType::Raise, amount: Some(amount) }
        }
    }
}

impl GameState {
    /// The catalogue personality assigned to the active seat, round-robin
    /// over a fixed table of four profiles.
    pub fn get_robot_personality(&self) -> (p: RobotPersonality)
        ensures
            crate::state::personality_wf(p),
            p.name@ == catalogue_name(self.current_player as int % 4),
            p.emoji@ == catalogue_emoji(self.current_player as int % 4),
            p.style@ == catalogue_style(self.current_player as int % 4),
            p.description@ == catalogue_description(self.current_player as int % 4),
            p.aggression == catalogue_aggression(self.current_player as int % 4),
            p.bluff_frequency == catalogue_bluff(self.current_player as int % 4),
            p.patience == catalogue_patience(self.current_player as int % 4),
            p.risk_tolerance == catalogue_risk(self.current_player as int % 4),
    {
        catalogue_personality(self.current_player)
    }
}

/// Name of the catalogue personality at index `k`.
pub open spec fn catalogue_name(k: int) -> Seq<char> {
    if k == 0 {
        "PokerBot 3000"@
    } else if k == 1 {
        "Lucky Larry"@
    } else if k == 2 {
        "Bluff Master"@
    } else {
        "Safe Sally"@
    }
}

/// Emoji of the catalogue personality at index `k`.
pub open spec fn catalogue_emoji(k: int) -> Seq<char> {
    if k == 0 {
        "\u{1F916}"@
    } else if k == 1 {
        "\u{1F340}"@
    } else if k == 2 {
        "\u{1F3AD}"@
    } else {
        "\u{1F6E1}\u{FE0F}"@
    }
}

/// Style label of the catalogue personality at index `k`.
pub open spec fn catalogue_style(k: int) -> Seq<char> {
    if k == 0 {
        "Calculating"@
    } else if k == 1 {
        "Lucky"@
    } else if k == 2 {
        "Deceptive"@
    } else {
        "Conservative"@
    }
}

/// Description of the catalogue personality at index `k`.
pub open spec fn catalogue_description(k: int) -> Seq<char> {
    if k == 0 {
        "A cold, calculating machine that plays by the numbers"@
    } else if k == 1 {
        "Always seems to get the cards he needs"@
    } else if k == 2 {
        "Loves to bluff and keep you guessing"@
    } else {
        "Plays it safe and waits for good hands"@
    }
}

/// Display name of a seat's robot: its personality's emoji and name.
pub open spec fn catalogue_display(k: int) -> Seq<char> {
    if k == 0 {
        "🤖 PokerBot 3000"@
    } else if k == 1 {
        "🍀 Lucky Larry"@
    } else if k == 2 {
        "🎭 Bluff Master"@
    } else {
        "🛡️ Safe Sally"@
    }
}

/// The display name a robot seat is introduced with: its personality's
/// emoji and name.
pub fn catalogue_display_name(seat: usize) -> (n: String)
    ensures
        n@ == catalogue_display(seat as int % 4),
{
    let k = seat % 4;
    if k == 0 {
        "🤖 PokerBot 3000".to_owned()
    } else if k == 1 {
        "🍀 Lucky Larry".to_owned()
    } else if k == 2 {
        "🎭 Bluff Master".to_owned()
    } else {
        "🛡️ Safe Sally".to_owned()
    }
}

/// The catalogue personality for seat `seat`, round-robin over the fixed
/// table of four profiles.
pub fn catalogue_personality(seat: usize) -> (p: RobotPersonality)
    ensures
        crate::state::personality_wf(p),
        p.name@ == catalogue_name(seat as int % 4),
        p.emoji@ == catalogue_emoji(seat as int % 4),
        p.style@ == catalogue_style(seat as int % 4),
        p.description@ == catalogue_description(seat as int % 4),
        p.aggression == catalogue_aggression(seat as int % 4),
        p.bluff_frequency == catalogue_bluff(seat as int % 4),
        p.patience == catalogue_patience(seat as int % 4),
        p.risk_tolerance == catalogue_risk(seat as int % 4),
{
    let k = seat % 4;
    {
        if k == 0 {
            RobotPersonality {
                name: "PokerBot 3000".to_owned(),
                emoji: "🤖".to_owned(),
                style: "Calculating".to_owned(),
                description: "A cold, calculating machine that plays by the numbers".to_owned(),
                aggression: 70,
                bluff_frequency: 30,
                patience: 80,
                risk_tolerance: 60,
            }
        } else if k == 1 {
            RobotPersonality {
                name: "Lucky Larry".to_owned(),
                emoji: "🍀".to_owned(),
                style: "Lucky".to_owned(),
                description: "Always seems to get the cards he needs".to_owned(),
                aggression: 50,
                bluff_frequency: 60,
                patience: 40,
                risk_tolerance: 80,
            }
        } else if k == 2 {
            RobotPersonality {
                name: "Bluff Master".to_owned(),
                emoji: "🎭".to_owned(),
                style: "Deceptive".to_owned(),
                description: "Loves to bluff and keep you guessing".to_owned(),
                aggression: 80,
                bluff_frequency: 80,
                patience: 30,
                risk_tolerance: 90,
            }
        } else {
            RobotPersonality {
                name: "Safe Sally".to_owned(),
                emoji: "🛡️".to_owned(),
                style: "Conservative".to_owned(),
                description: "Plays it safe and waits for good hands".to_owned(),
                aggression: 30,
                bluff_frequency: 20,
                patience: 90,
                risk_tolerance: 30,
            }
        }
    }
}

} // verus!
