use poker_core::state::{Action, ActionType, GameMode, GameState, PokerError};

fn two_seat_game() -> GameState {
    GameState::new(2, GameMode::Simulation, 1000).unwrap()
}

fn action(seat: usize, action_type: ActionType, amount: Option<u32>) -> Action {
    Action { player_index: seat, action_type, amount }
}

#[test]
fn session_creation_rejects_bad_seat_counts() {
    assert!(matches!(
        GameState::new(1, GameMode::Simulation, 1000),
        Err(PokerError::ConfigurationError)
    ));
    assert!(matches!(
        GameState::new(9, GameMode::RobotPlay, 1000),
        Err(PokerError::ConfigurationError)
    ));
    for n in 2..=8 {
        assert!(GameState::new(n, GameMode::Simulation, 100).is_ok());
    }
}

#[test]
fn bet_debits_the_seat_and_grows_the_pot_by_the_amount() {
    let mut g = two_seat_game();
    let r = g.apply_action(action(0, ActionType::Bet, Some(100)));
    assert!(r.is_ok());
    assert_eq!(g.players[0].chips, 900);
    assert_eq!(g.players[0].current_bet, 100);
    assert_eq!(g.pot, 100);
    assert_eq!(g.current_bet, 100);
    assert_eq!(g.players[1].chips, 1000);
}

#[test]
fn call_matches_the_table_bet_exactly() {
    let mut g = two_seat_game();
    g.apply_action(action(0, ActionType::Bet, Some(150))).unwrap();
    let r = g.apply_action(action(1, ActionType::Call, None));
    assert!(r.is_ok());
    assert_eq!(g.players[1].current_bet, g.current_bet);
    assert_eq!(g.players[1].chips, 850);
    assert_eq!(g.pot, 300);
    // No chips were created or destroyed.
    assert_eq!(g.pot + g.players[0].chips + g.players[1].chips, 2000);
}

#[test]
fn call_with_no_live_bet_moves_nothing() {
    let mut g = two_seat_game();
    let r = g.apply_action(action(1, ActionType::Call, None));
    assert!(r.is_ok());
    assert_eq!(g.players[1].chips, 1000);
    assert_eq!(g.pot, 0);
}

#[test]
fn check_against_a_live_bet_is_rejected_without_mutation() {
    let mut g = two_seat_game();
    g.apply_action(action(0, ActionType::Bet, Some(100))).unwrap();
    let pot_before = g.pot;
    let chips_before = (g.players[0].chips, g.players[1].chips);
    let table_before = g.current_bet;
    let r = g.apply_action(action(1, ActionType::Check, None));
    assert!(matches!(r, Err(PokerError::IllegalAction)));
    assert_eq!(g.pot, pot_before);
    assert_eq!((g.players[0].chips, g.players[1].chips), chips_before);
    assert_eq!(g.current_bet, table_before);
}

#[test]
fn check_with_no_live_bet_is_legal() {
    let mut g = two_seat_game();
    let r = g.apply_action(action(0, ActionType::Check, None));
    assert!(r.is_ok());
    assert_eq!(g.pot, 0);
    assert_eq!(g.players[0].chips, 1000);
}

#[test]
fn bet_must_exceed_the_table_bet() {
    let mut g = two_seat_game();
    let r = g.apply_action(action(0, ActionType::Bet, Some(0)));
    assert!(matches!(r, Err(PokerError::IllegalAction)));
    g.apply_action(action(0, ActionType::Bet, Some(100))).unwrap();
    let r2 = g.apply_action(action(1, ActionType::Raise, Some(100)));
    assert!(matches!(r2, Err(PokerError::IllegalAction)));
    let r3 = g.apply_action(action(1, ActionType::Raise, Some(101)));
    assert!(r3.is_ok());
}

#[test]
fn bet_without_an_amount_is_rejected() {
    let mut g = two_seat_game();
    let r = g.apply_action(action(0, ActionType::Bet, None));
    assert!(matches!(r, Err(PokerError::IllegalAction)));
    let r2 = g.apply_action(action(0, ActionType::Raise, None));
    assert!(matches!(r2, Err(PokerError::IllegalAction)));
}

#[test]
fn betting_more_than_the_stack_is_rejected() {
    let mut g = two_seat_game();
    let r = g.apply_action(action(0, ActionType::Bet, Some(1001)));
    assert!(matches!(r, Err(PokerError::InsufficientChips)));
    assert_eq!(g.players[0].chips, 1000);
    assert_eq!(g.pot, 0);
}

#[test]
fn re_raising_beyond_the_remaining_stack_is_rejected() {
    let mut g = GameState::new(2, GameMode::Simulation, 1000).unwrap();
    g.apply_action(action(1, ActionType::Bet, Some(600))).unwrap();
    assert_eq!(g.players[1].chips, 400);
    g.apply_action(action(0, ActionType::Raise, Some(700))).unwrap();
    // Seat 1 has 400 chips left and a fresh raise is a flat amount, so a
    // raise to 800 is beyond its stack.
    let r = g.apply_action(action(1, ActionType::Raise, Some(800)));
    assert!(matches!(r, Err(PokerError::InsufficientChips)));
    assert_eq!(g.players[1].chips, 400);
    assert_eq!(g.pot, 1300);
}

#[test]
fn fold_removes_the_hole_cards_from_play() {
    let mut g = two_seat_game();
    assert_eq!(g.players[1].cards.len(), 2);
    g.apply_action(action(1, ActionType::Fold, None)).unwrap();
    assert_eq!(g.players[1].cards.len(), 0);
    assert_eq!(g.players[1].chips, 1000);
    assert_eq!(g.pot, 0);
}

#[test]
fn raise_behaves_like_a_fresh_flat_bet() {
    let mut g = two_seat_game();
    g.apply_action(action(0, ActionType::Bet, Some(100))).unwrap();
    g.apply_action(action(1, ActionType::Raise, Some(300))).unwrap();
    // The raiser is debited the full raw amount, which becomes the table
    // bet; it is not added on top of a prior commitment.
    assert_eq!(g.players[1].chips, 700);
    assert_eq!(g.players[1].current_bet, 300);
    assert_eq!(g.current_bet, 300);
    assert_eq!(g.pot, 400);
}

#[test]
fn error_messages_name_the_failure() {
    assert_eq!(
        PokerError::ConfigurationError.message(),
        "Number of players must be between 2 and 8"
    );
    assert_eq!(PokerError::IllegalAction.message(), "Action is not allowed now");
    assert_eq!(PokerError::InsufficientChips.message(), "Not enough chips");
    assert_eq!(PokerError::NoActiveSession.message(), "No active game");
}
