use casino::cards::GameResult;
use casino::error::Error;
use casino::parlor::{
    derived_seed, GamePhase, Operation, Parlor, PlayerTable, RouletteBet, RouletteBetType,
};

#[test]
fn number_bet_on_seven_pays_thirty_six_times() {
    // Seed chosen so the parlor wheel lands on 7.
    let mut table = PlayerTable::fresh(1000, 11);
    let bets = vec![RouletteBet { bet_type: RouletteBetType::Number, number: Some(7), amount: 10 }];
    table.spin_roulette(bets, 50).unwrap();
    assert_eq!(table.last_roulette_outcome, Some(7));
    assert_eq!(table.player_balance, 1000 - 10 + 360);
    assert_eq!(table.roulette_history.len(), 1);
    assert_eq!(table.roulette_history[0].payout, 360);
    assert_eq!(table.roulette_history[0].total_bet, 10);
    assert_eq!(table.roulette_history[0].timestamp, 50);
}

#[test]
fn number_bet_on_other_number_pays_nothing() {
    // The same seed lands on 7, so a bet on 8 loses its stake.
    let mut table = PlayerTable::fresh(1000, 11);
    let bets = vec![RouletteBet { bet_type: RouletteBetType::Number, number: Some(8), amount: 10 }];
    table.spin_roulette(bets, 50).unwrap();
    assert_eq!(table.last_roulette_outcome, Some(7));
    assert_eq!(table.player_balance, 990);
    assert_eq!(table.roulette_history[0].payout, 0);
}

#[test]
fn malformed_number_bets_rejected() {
    let mut table = PlayerTable::fresh(1000, 11);
    let missing = vec![RouletteBet { bet_type: RouletteBetType::Number, number: None, amount: 10 }];
    assert_eq!(table.spin_roulette(missing, 0), Err(Error::InvalidBet));
    let out_of_range =
        vec![RouletteBet { bet_type: RouletteBetType::Number, number: Some(37), amount: 10 }];
    assert_eq!(table.spin_roulette(out_of_range, 0), Err(Error::InvalidBet));
    let zero_total = vec![RouletteBet { bet_type: RouletteBetType::Red, number: None, amount: 0 }];
    assert_eq!(table.spin_roulette(zero_total, 0), Err(Error::EmptyBets));
    let too_big = vec![RouletteBet { bet_type: RouletteBetType::Red, number: None, amount: 5000 }];
    assert_eq!(table.spin_roulette(too_big, 0), Err(Error::InsufficientBalance));
    assert_eq!(table.player_balance, 1000);
}

#[test]
fn chip_faucet_credits_and_unsticks() {
    let mut table = PlayerTable::fresh(5, 3);
    table.start_game(5, 0).unwrap();
    if table.phase == GamePhase::PlayerTurn {
        table.stand(1).unwrap();
    }
    assert_eq!(table.phase, GamePhase::RoundComplete);
    let before = table.player_balance;
    table.request_chips();
    assert_eq!(table.player_balance, before + 100);
    assert_eq!(table.phase, GamePhase::WaitingForBet);
}

#[test]
fn parlor_blackjack_keeps_the_hole_card_hidden() {
    let mut table = PlayerTable::fresh(100, 7);
    table.start_game(2, 0).unwrap();
    if table.phase == GamePhase::PlayerTurn {
        // Only the up card shows until the player finishes.
        assert_eq!(table.dealer_hand.len(), 1);
        assert!(table.dealer_hole_card.is_some());
        table.stand(1).unwrap();
    }
    // After resolution the hole card joined the dealer's hand.
    assert!(table.dealer_hole_card.is_none());
    assert!(table.dealer_hand.len() >= 2);
    assert_eq!(table.phase, GamePhase::RoundComplete);
    assert_eq!(table.game_history.len(), 1);
    let record = &table.game_history[0];
    assert_eq!(record.bet, 2);
    assert!(record.result != GameResult::PlayerBlackjack || record.payout == 5);
}

#[test]
fn parlor_reset_between_rounds() {
    let mut table = PlayerTable::fresh(100, 9);
    table.start_game(1, 0).unwrap();
    if table.phase == GamePhase::PlayerTurn {
        assert_eq!(table.reset(), Err(Error::RoundActive));
        table.stand(1).unwrap();
    }
    table.reset().unwrap();
    assert_eq!(table.phase, GamePhase::WaitingForBet);
    assert!(table.deck.is_empty());
}

#[test]
fn derived_seeds_are_stable_and_personal() {
    // The same master seed and owner always derive the same table seed.
    assert_eq!(derived_seed(99, 1), derived_seed(99, 1));
    // Different owners get different streams from one master seed.
    assert_ne!(derived_seed(99, 1), derived_seed(99, 2));
    // The derivation actually mixes its inputs rather than echoing them.
    assert_ne!(derived_seed(99, 1), 99);
}

#[test]
fn parlor_opens_tables_on_first_contact() {
    let mut parlor = Parlor::instantiate(100, 42, 1);
    assert!(parlor.players.is_empty());
    parlor.execute(7, Operation::StartGame { bet: 2 }, 10).unwrap();
    assert_eq!(parlor.players.len(), 1);
    assert_eq!(parlor.players[0].0, 7);
    assert_eq!(parlor.players[0].1.player_hand.len(), 2);
    // A second account gets its own table and its own derived seed.
    parlor.execute(8, Operation::StartGame { bet: 2 }, 11).unwrap();
    assert_eq!(parlor.players.len(), 2);
    assert_ne!(parlor.players[0].1.random_seed, parlor.players[1].1.random_seed);
    // A failed operation opens no table.
    let bad = parlor.execute(9, Operation::StartGame { bet: 99 }, 12);
    assert_eq!(bad, Err(casino::error::Error::BetBelowMinimum));
    assert_eq!(parlor.players.len(), 2);
}

#[test]
fn parlor_faucet_via_operation() {
    let mut parlor = Parlor::instantiate(50, 3, 1);
    parlor.execute(7, Operation::RequestChips, 0).unwrap();
    assert_eq!(parlor.players[0].1.player_balance, 150);
}
