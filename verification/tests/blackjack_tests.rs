use casino::blackjack::{BlackjackInit, BlackjackTable, GamePhase, Operation};
use casino::cards::GameResult;
use casino::error::Error;

fn table(starting_balance: u64, random_seed: u64) -> BlackjackTable {
    BlackjackTable::instantiate(BlackjackInit { starting_balance, random_seed })
}

#[test]
fn deal_initial_round() {
    let mut app = table(20, 7);
    app.execute(Operation::StartRound { bet: 2 }).expect("operation executes");
    assert_eq!(app.player_hand.len(), 2);
    assert_eq!(app.dealer_hand.len(), 2);
    assert_eq!(app.player_balance, 20 - 2);
    assert_eq!(app.current_bet, 2);
}

#[test]
fn natural_blackjack_pays_five_halves() {
    // Seed chosen so the opening player hand totals 21 while the dealer's
    // two cards total less.
    let mut app = table(100, 4);
    app.start_game(5).unwrap();
    assert_eq!(app.last_result, Some(GameResult::PlayerBlackjack));
    assert_eq!(app.phase, GamePhase::RoundComplete);
    // Payout is bet * 5 / 2 = 12 on a bet of 5.
    assert_eq!(app.player_balance, 100 - 5 + 12);
    assert_eq!(app.current_bet, 0);
}

#[test]
fn dealer_bust_pays_double() {
    // Seed chosen so the player stands at 18 and the dealer draws past 21.
    let mut app = table(100, 48);
    app.start_game(5).unwrap();
    assert_eq!(casino::cards::calculate_hand_value(&app.player_hand), 18);
    app.stand().unwrap();
    assert_eq!(app.last_result, Some(GameResult::DealerBust));
    assert!(casino::cards::calculate_hand_value(&app.dealer_hand) > 21);
    assert_eq!(app.player_balance, 100 - 5 + 10);
}

#[test]
fn bet_must_be_allowed() {
    let mut app = table(100, 3);
    assert_eq!(app.start_game(0), Err(Error::BetBelowMinimum));
    assert_eq!(app.start_game(6), Err(Error::BetBelowMinimum));
    assert_eq!(app.player_balance, 100);
}

#[test]
fn insufficient_balance_rejected() {
    let mut app = table(3, 7);
    assert_eq!(app.start_game(5), Err(Error::InsufficientBalance));
}

#[test]
fn no_actions_outside_player_turn() {
    let mut app = table(100, 7);
    assert_eq!(app.hit(), Err(Error::WrongPhase));
    assert_eq!(app.stand(), Err(Error::WrongPhase));
    app.start_game(2).unwrap();
    assert_eq!(app.phase, GamePhase::PlayerTurn);
    assert_eq!(app.start_game(2), Err(Error::RoundActive));
    assert_eq!(app.reset_round(), Err(Error::RoundActive));
}

#[test]
fn reset_clears_the_table() {
    let mut app = table(100, 7);
    app.start_game(2).unwrap();
    app.stand().unwrap();
    assert_eq!(app.phase, GamePhase::RoundComplete);
    app.reset_round().unwrap();
    assert_eq!(app.phase, GamePhase::WaitingForBet);
    assert!(app.deck.is_empty());
    assert!(app.player_hand.is_empty());
    assert!(app.dealer_hand.is_empty());
    assert_eq!(app.current_bet, 0);
}

#[test]
fn identical_seeds_deal_identical_rounds() {
    let mut a = table(100, 1234);
    let mut b = table(100, 1234);
    a.start_game(3).unwrap();
    b.start_game(3).unwrap();
    assert_eq!(
        casino::cards::calculate_hand_value(&a.player_hand),
        casino::cards::calculate_hand_value(&b.player_hand)
    );
    assert_eq!(a.player_hand.len(), b.player_hand.len());
    for i in 0..a.player_hand.len() {
        assert_eq!(a.player_hand[i].id, b.player_hand[i].id);
    }
}

#[test]
fn zero_seed_is_remapped() {
    let app = table(50, 0);
    assert_ne!(app.random_seed, 0);
    assert_eq!(app.default_buy_in, 50);
}
