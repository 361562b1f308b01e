use casino::error::Error;
use casino::roulette::{
    get_payout_multiplier, is_red_number, validate_bet, Bet, BetType, RouletteInit, RouletteState,
};

fn table(starting_balance: u64, random_seed: u64) -> RouletteState {
    RouletteState::instantiate(RouletteInit { starting_balance, random_seed })
}

#[test]
fn place_straight_up_bet() {
    let mut app = table(1000, 42);
    let bets = vec![Bet { bet_type: BetType::StraightUp, amount: 10, selection: 7 }];
    app.place_bets_and_spin(bets, 0).expect("spin succeeds");
    let result = app.last_result.clone();
    assert!(result.is_some());
    let spin_result = result.unwrap();
    assert!(spin_result.winning_number <= 37);
    if spin_result.winning_number == 7 {
        assert_eq!(app.player_balance, 1000 - 10 + spin_result.total_payout);
    } else {
        assert_eq!(app.player_balance, 1000 - 10);
    }
}

#[test]
fn straight_up_win_pays_thirty_six_times() {
    // Seed chosen so the wheel lands on 7.
    let mut app = table(1000, 23);
    let bets = vec![Bet { bet_type: BetType::StraightUp, amount: 10, selection: 7 }];
    app.place_bets_and_spin(bets, 5).unwrap();
    let spin = app.last_result.clone().unwrap();
    assert_eq!(spin.winning_number, 7);
    assert_eq!(spin.total_payout, 10 * 36);
    assert_eq!(app.player_balance, 1000 - 10 + 360);
    assert_eq!(app.game_history.len(), 1);
    assert_eq!(app.game_history[0].spin_result.winning_number, 7);
}

#[test]
fn straight_up_loss_pays_nothing() {
    // Seed 42 lands on 0, so a bet on 7 loses.
    let mut app = table(1000, 42);
    let bets = vec![Bet { bet_type: BetType::StraightUp, amount: 10, selection: 7 }];
    app.place_bets_and_spin(bets, 0).unwrap();
    let spin = app.last_result.clone().unwrap();
    assert_eq!(spin.winning_number, 0);
    assert_eq!(spin.total_payout, 0);
    assert_eq!(app.player_balance, 990);
}

#[test]
fn empty_and_invalid_bets_rejected() {
    let mut app = table(1000, 1);
    assert_eq!(app.place_bets_and_spin(vec![], 0), Err(Error::EmptyBets));
    let too_big = vec![Bet { bet_type: BetType::StraightUp, amount: 5000, selection: 7 }];
    assert_eq!(app.place_bets_and_spin(too_big, 0), Err(Error::InsufficientBalance));
    let zero = vec![Bet { bet_type: BetType::Color, amount: 0, selection: 0 }];
    assert_eq!(app.place_bets_and_spin(zero, 0), Err(Error::InvalidBet));
    let bad_selection = vec![Bet { bet_type: BetType::Dozen, amount: 5, selection: 3 }];
    assert_eq!(app.place_bets_and_spin(bad_selection, 0), Err(Error::InvalidBet));
    assert_eq!(app.player_balance, 1000);
    assert!(app.last_result.is_none());
}

#[test]
fn selection_ranges() {
    let ok = Bet { bet_type: BetType::StraightUp, amount: 1, selection: 37 };
    assert!(validate_bet(&ok).is_ok());
    let bad = Bet { bet_type: BetType::Color, amount: 1, selection: 2 };
    assert_eq!(validate_bet(&bad), Err(Error::InvalidBet));
}

#[test]
fn payout_multipliers() {
    assert_eq!(get_payout_multiplier(BetType::StraightUp), 35);
    assert_eq!(get_payout_multiplier(BetType::Color), 1);
    assert_eq!(get_payout_multiplier(BetType::Parity), 1);
    assert_eq!(get_payout_multiplier(BetType::Range), 1);
    assert_eq!(get_payout_multiplier(BetType::Dozen), 2);
    assert_eq!(get_payout_multiplier(BetType::Column), 2);
}

#[test]
fn red_number_classification() {
    assert_eq!(is_red_number(0), None);
    assert_eq!(is_red_number(37), None);
    assert_eq!(is_red_number(1), Some(true));
    assert_eq!(is_red_number(36), Some(true));
    assert_eq!(is_red_number(2), Some(false));
    assert_eq!(is_red_number(35), Some(false));
}

#[test]
fn reset_round_clears_bets() {
    let mut app = table(1000, 23);
    let bets = vec![Bet { bet_type: BetType::StraightUp, amount: 10, selection: 7 }];
    app.place_bets_and_spin(bets, 5).unwrap();
    assert!(!app.current_bets.is_empty());
    app.reset_round().unwrap();
    assert!(app.current_bets.is_empty());
    assert!(app.last_result.is_none());
    // The history stays.
    assert_eq!(app.game_history.len(), 1);
}
