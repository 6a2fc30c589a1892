use poker_core::cards::Card;
use poker_core::robot::{catalogue_personality, decide_robot_action};
use poker_core::state::{Action, ActionType, GameMode, GameState};

fn all_cards_in_play(g: &GameState) -> Vec<Card> {
    let mut all: Vec<Card> = Vec::new();
    all.extend(g.deck.iter().cloned());
    for p in &g.players {
        all.extend(p.cards.iter().cloned());
    }
    all.extend(g.community_cards.iter().cloned());
    all
}

fn assert_no_duplicates(cards: &[Card]) {
    for i in 0..cards.len() {
        for j in (i + 1)..cards.len() {
            assert!(cards[i] != cards[j], "duplicate card in play");
        }
    }
}

#[test]
fn new_game_deals_two_cards_per_seat_from_a_full_deck() {
    let g = GameState::new(4, GameMode::RobotPlay, 500).unwrap();
    assert_eq!(g.players.len(), 4);
    assert_eq!(g.deck.len(), 52 - 8);
    assert_eq!(g.community_cards.len(), 0);
    assert_eq!(g.pot, 0);
    assert_eq!(g.current_bet, 0);
    assert_eq!(g.current_player, 0);
    for (i, p) in g.players.iter().enumerate() {
        assert_eq!(p.chips, 500);
        assert_eq!(p.cards.len(), 2);
        assert_eq!(p.is_robot, i > 0);
        assert_eq!(p.current_bet, 0);
        assert_eq!(p.personality.is_some(), i > 0);
        assert!(p.win_probability.den > 0);
        assert!(p.win_probability.num <= p.win_probability.den);
    }
    assert!(!g.players[0].is_robot);
    let all = all_cards_in_play(&g);
    assert_eq!(all.len(), 52);
    assert_no_duplicates(&all);
}

#[test]
fn dealing_moves_cards_from_deck_to_board() {
    let mut g = GameState::new(2, GameMode::Simulation, 1000).unwrap();
    let deck_before = g.deck.len();
    g.deal_flop();
    assert_eq!(g.community_cards.len(), 3);
    assert_eq!(g.deck.len(), deck_before - 3);
    g.deal_turn();
    assert_eq!(g.community_cards.len(), 4);
    g.deal_river();
    assert_eq!(g.community_cards.len(), 5);
    assert_eq!(g.deck.len(), deck_before - 5);
    let all = all_cards_in_play(&g);
    assert_eq!(all.len(), 52);
    assert_no_duplicates(&all);
    // A full board deals nothing further.
    g.deal_turn();
    assert_eq!(g.community_cards.len(), 5);
    assert_eq!(g.deck.len(), deck_before - 5);
}

#[test]
fn probabilities_are_refreshed_and_zero_for_folded_seats() {
    let mut g = GameState::new(3, GameMode::Simulation, 1000).unwrap();
    g.apply_action(Action { player_index: 1, action_type: ActionType::Fold, amount: None })
        .unwrap();
    g.update_probabilities();
    assert_eq!(g.players[1].win_probability.num, 0);
    for p in &g.players {
        assert!(p.win_probability.den > 0);
        assert!(p.win_probability.num <= p.win_probability.den);
    }
}

#[test]
fn check_round_trip_returns_control_to_the_human_seat() {
    let mut g = GameState::new(2, GameMode::Simulation, 1000).unwrap();
    let check = Action { player_index: 0, action_type: ActionType::Check, amount: None };
    let first = g.handle_action(check);
    // The human check itself is always legal at a zero table bet; only the
    // robot's own generated move can fail (for instance a zero-pot bet of
    // zero). The human's chips are untouched either way.
    assert_eq!(g.players[0].chips, 1000);
    if first.is_err() {
        let second = g.handle_action(check);
        assert!(second.is_ok(), "retry after a robot misplay must succeed");
    }
    assert_eq!(g.current_player, 0);
    assert_eq!(g.pot + g.players[0].chips + g.players[1].chips, 2000);
}

#[test]
fn robot_seats_cycle_through_the_personality_catalogue() {
    let g = GameState::new(8, GameMode::RobotPlay, 1000).unwrap();
    let expected_aggression = [70, 50, 80, 30];
    for i in 1..8 {
        let p = g.players[i].personality.as_ref().unwrap();
        assert_eq!(p.aggression, expected_aggression[i % 4]);
        assert!(p.bluff_frequency <= 100);
        assert!(p.patience <= 100);
        assert!(p.risk_tolerance <= 100);
    }
    assert!(g.players[0].personality.is_none());
}

#[test]
fn robot_policy_is_deterministic_in_the_draw() {
    let p0 = catalogue_personality(0);
    assert_eq!(p0.aggression, 70);

    // No live bet: check below the aggression threshold, else bet half the
    // pot scaled by aggression.
    let a = decide_robot_action(3, 0, 200, &p0, 59);
    assert_eq!(a.action_type, ActionType::Check);
    assert_eq!(a.amount, None);
    assert_eq!(a.player_index, 3);
    let b = decide_robot_action(3, 0, 200, &p0, 60);
    assert_eq!(b.action_type, ActionType::Bet);
    assert_eq!(b.amount, Some(70));

    // Against a live bet: fold, call, or raise by rising draw.
    let f = decide_robot_action(1, 50, 200, &p0, 29);
    assert_eq!(f.action_type, ActionType::Fold);
    let c = decide_robot_action(1, 50, 200, &p0, 30);
    assert_eq!(c.action_type, ActionType::Call);
    let r = decide_robot_action(1, 50, 200, &p0, 60);
    assert_eq!(r.action_type, ActionType::Raise);
    assert_eq!(r.amount, Some(85));
}

#[test]
fn history_records_actions_with_snapshots() {
    let mut g = GameState::new(2, GameMode::Simulation, 1000).unwrap();
    let bet = Action { player_index: 0, action_type: ActionType::Bet, amount: Some(50) };
    // Recording without an open hand entry is a no-op.
    g.record_action(&bet);
    assert_eq!(g.hand_history.len(), 0);

    g.start_new_hand();
    assert_eq!(g.hand_history.len(), 1);
    assert_eq!(g.hand_history[0].actions.len(), 0);
    assert_eq!(g.hand_history[0].pot_size, 0);

    g.apply_action(bet).unwrap();
    g.record_action(&bet);
    let entry = &g.hand_history[0];
    assert_eq!(entry.actions.len(), 1);
    assert_eq!(entry.actions[0].player_index, 0);
    assert_eq!(entry.pot_size, 50);
    assert_eq!(entry.player_cards.len(), 2);
    assert_eq!(entry.player_cards[0].len(), 2);
}

#[test]
fn stats_track_play_counts_and_biggest_pot() {
    let mut g = GameState::new(2, GameMode::Simulation, 1000).unwrap();
    let bet = Action { player_index: 0, action_type: ActionType::Bet, amount: Some(200) };
    g.apply_action(bet).unwrap();
    g.update_stats(&bet);
    assert_eq!(g.stats.players[0].games_played, 1);
    assert_eq!(g.stats.players[0].favorite_action, "Aggressive");
    assert_eq!(g.stats.players[0].biggest_pot, 200);
    assert_eq!(g.stats.players[1].games_played, 0);

    let call = Action { player_index: 1, action_type: ActionType::Call, amount: None };
    g.apply_action(call).unwrap();
    g.update_stats(&call);
    assert_eq!(g.stats.players[1].games_played, 1);
    assert_eq!(g.stats.players[1].favorite_action, "Conservative");
    assert_eq!(g.stats.players[1].biggest_pot, 400);
}
