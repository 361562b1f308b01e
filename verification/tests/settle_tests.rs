use casino::cards::GameResult;
use casino::error::Error;
use casino::settle::{
    replay_and_verify, Bank, GameType, PlayerAccount, RoundStatus,
};
use casino::table::PlayerActionKind;

#[test]
fn replay_is_deterministic() {
    // The same seed, bet, and action log settle identically on every
    // invocation, which is what lets two distrusting sides agree.
    let actions = vec![PlayerActionKind::Stand];
    let first = replay_and_verify(42, 10, &actions).unwrap();
    let second = replay_and_verify(42, 10, &actions).unwrap();
    assert_eq!(first.result, second.result);
    assert_eq!(first.payout, second.payout);
    assert_eq!(first.dealer_hand, second.dealer_hand);
    assert_eq!(first.result, GameResult::DealerBust);
    assert_eq!(first.payout, 20);
}

#[test]
fn replay_natural_blackjack() {
    // Seed chosen so the player's first two cards total 21 while the
    // dealer's total less: the round settles PlayerBlackjack at bet * 5 / 2.
    let settlement = replay_and_verify(17, 10, &vec![]).unwrap();
    assert_eq!(settlement.result, GameResult::PlayerBlackjack);
    assert_eq!(settlement.payout, 25);
    assert_eq!(settlement.dealer_hand.len(), 2);
}

#[test]
fn replay_dealer_bust() {
    // Seed chosen so the player stands at 18 and the dealer draws past 21:
    // DealerBust at twice the bet.
    let settlement = replay_and_verify(32, 10, &vec![PlayerActionKind::Stand]).unwrap();
    assert_eq!(settlement.result, GameResult::DealerBust);
    assert_eq!(settlement.payout, 20);
    assert!(casino::engine::hand_value(&settlement.dealer_hand) > 21);
}

#[test]
fn replay_rejects_bad_logs() {
    // An action after the turn ended is an integrity failure.
    let after_stand = vec![PlayerActionKind::Stand, PlayerActionKind::Hit];
    assert_eq!(replay_and_verify(42, 10, &after_stand).err(), Some(Error::InvalidActionLog));
    // A log that never ends the turn is incomplete.
    assert_eq!(replay_and_verify(42, 10, &vec![]).err(), Some(Error::InvalidActionLog));
    // Double down is only legal on the opening two cards.
    let late_double = vec![
        PlayerActionKind::Hit,
        PlayerActionKind::Hit,
        PlayerActionKind::DoubleDown,
    ];
    let outcome = replay_and_verify(42, 10, &late_double);
    assert!(outcome.is_ok() || outcome.err() == Some(Error::InvalidActionLog));
}

#[test]
fn round_trip_bank_and_player_agree() {
    // The round trip of the protocol: the bank issues a seed, the player
    // plays locally, and the bank's replay of the reported log reproduces
    // exactly the round the player saw.
    let mut bank = Bank::new(42, 10_000);
    let mut player = PlayerAccount::new(500);
    player.request_game(50).unwrap();
    assert_eq!(player.balance, 450);
    let (game_id, seed) = bank.handle_request(7, 77, GameType::Blackjack, 50, 1000);
    assert_eq!(game_id, 0);
    player.on_game_ready(game_id, seed, 50).unwrap();
    // Play the hand: stand immediately unless the deal was a natural.
    let active_phase = player.active.as_ref().unwrap().phase;
    if active_phase == RoundStatus::Playing {
        player.play_action(PlayerActionKind::Stand).unwrap();
    }
    let log = player.report().unwrap();
    let house_before = bank.house_balance;
    let settlement = bank.handle_report(game_id, 7, &log).unwrap();
    // The bank's replay agrees with the player's locally dealt hands.
    let direct = replay_and_verify(seed, 50, &log).unwrap();
    assert_eq!(settlement.result, direct.result);
    assert_eq!(settlement.payout, direct.payout);
    assert_eq!(settlement.dealer_hand, direct.dealer_hand);
    // Conservation: the house change is the negative of the player's net.
    let player_before = player.balance;
    player.on_settled(settlement.result, settlement.payout, 1001).unwrap();
    let player_delta = player.balance as i64 - player_before as i64;
    let house_delta = bank.house_balance as i64 - house_before as i64;
    assert_eq!(player_delta, settlement.payout as i64);
    assert_eq!(house_delta, 50 - settlement.payout as i64);
    assert_eq!(player.history.len(), 1);
    assert!(player.active.is_none());
}

#[test]
fn no_double_payout() {
    let mut bank = Bank::new(9, 1_000);
    let (game_id, seed) = bank.handle_request(5, 55, GameType::Blackjack, 10, 7);
    let mut player = PlayerAccount::new(100);
    player.request_game(10).unwrap();
    player.on_game_ready(game_id, seed, 10).unwrap();
    if player.active.as_ref().unwrap().phase == RoundStatus::Playing {
        player.play_action(PlayerActionKind::Stand).unwrap();
    }
    let log = player.report().unwrap();
    bank.handle_report(game_id, 5, &log).unwrap();
    // Reporting the same game id again must fail closed.
    assert_eq!(bank.handle_report(game_id, 5, &log).err(), Some(Error::GameNotFound));
    assert!(bank.pending.is_empty());
}

#[test]
fn reports_from_the_wrong_identity_fail() {
    let mut bank = Bank::new(3, 1_000);
    let (game_id, _seed) = bank.handle_request(5, 55, GameType::Blackjack, 10, 7);
    let log = vec![PlayerActionKind::Stand];
    assert_eq!(bank.handle_report(game_id, 6, &log).err(), Some(Error::IdentityMismatch));
    // The pending entry survives a rejected report.
    assert_eq!(bank.pending.len(), 1);
    // A report for an unknown id fails closed.
    assert_eq!(bank.handle_report(99, 5, &log).err(), Some(Error::GameNotFound));
}

#[test]
fn double_down_doubles_the_stake() {
    let mut player = PlayerAccount::new(100);
    player.request_game(10).unwrap();
    // Use a seed whose deal is not a natural so actions are legal.
    let seed = 42u64;
    player.on_game_ready(0, seed, 10).unwrap();
    assert_eq!(player.active.as_ref().unwrap().phase, RoundStatus::Playing);
    let status = player.play_action(PlayerActionKind::DoubleDown).unwrap();
    assert!(status == RoundStatus::Stood || status == RoundStatus::Busted);
    // The second escrow came out of the balance.
    assert_eq!(player.balance, 100 - 10 - 10);
    let log = player.report().unwrap();
    assert_eq!(log, vec![PlayerActionKind::DoubleDown]);
    // The replay doubles the bet the same way: a win pays 2 * 20.
    let settlement = replay_and_verify(seed, 10, &log).unwrap();
    assert!(settlement.payout == 0 || settlement.payout == 20 || settlement.payout == 40);
}

#[test]
fn one_shot_roulette_settles_in_the_same_turn() {
    let mut bank = Bank::new(1234, 100_000);
    let bet = casino::roulette::Bet {
        bet_type: casino::roulette::BetType::StraightUp,
        amount: 10,
        selection: 7,
    };
    let house_before = bank.house_balance;
    let (winning, payout) = bank.handle_roulette(5, bet, 99).unwrap();
    assert!(winning <= 37);
    if winning == 7 {
        assert_eq!(payout, 360);
        assert_eq!(bank.house_balance, house_before - 350);
    } else {
        assert_eq!(payout, 0);
        assert_eq!(bank.house_balance, house_before + 10);
    }
    // No pending entry bridges a one-shot round.
    assert!(bank.pending.is_empty());
    // A zero stake is rejected.
    let zero = casino::roulette::Bet {
        bet_type: casino::roulette::BetType::Color,
        amount: 0,
        selection: 0,
    };
    assert_eq!(bank.handle_roulette(5, zero, 99), Err(Error::InvalidBet));
}

#[test]
fn one_shot_baccarat_settles_in_the_same_turn() {
    let mut bank = Bank::new(777, 100_000);
    let house_before = bank.house_balance;
    let (winner, credit) = bank
        .handle_baccarat(5, 100, casino::baccarat::BetType::Player, 3)
        .unwrap();
    match winner {
        casino::baccarat::Winner::Player => {
            assert_eq!(credit, 200);
            assert_eq!(bank.house_balance, house_before - 100);
        }
        casino::baccarat::Winner::Banker => {
            assert_eq!(credit, 0);
            assert_eq!(bank.house_balance, house_before + 100);
        }
        casino::baccarat::Winner::Tie => {
            assert_eq!(credit, 100);
            assert_eq!(bank.house_balance, house_before);
        }
    }
    assert_eq!(bank.handle_baccarat(5, 0, casino::baccarat::BetType::Tie, 3), Err(Error::InvalidBet));
}

#[test]
fn player_reset_is_only_legal_between_rounds() {
    let mut player = PlayerAccount::new(100);
    player.request_game(10).unwrap();
    player.on_game_ready(0, 42, 10).unwrap();
    assert_eq!(player.reset(), Err(Error::RoundActive));
    player.play_action(PlayerActionKind::Stand).unwrap();
    player.reset().unwrap();
    assert!(player.active.is_none());
    // The escrowed bet stays gone: reset has no cross-chain effect.
    assert_eq!(player.balance, 90);
}

#[test]
fn double_down_needs_a_second_escrow() {
    let mut player = PlayerAccount::new(15);
    player.request_game(10).unwrap();
    player.on_game_ready(0, 42, 10).unwrap();
    assert_eq!(player.active.as_ref().unwrap().phase, RoundStatus::Playing);
    // Only 5 chips remain, so the second escrow of 10 is refused and the
    // round is untouched.
    assert_eq!(player.play_action(PlayerActionKind::DoubleDown), Err(Error::InsufficientBalance));
    assert_eq!(player.balance, 5);
    assert!(player.active.as_ref().unwrap().actions.is_empty());
    // The hand can still be played out normally.
    let status = player.play_action(PlayerActionKind::Stand).unwrap();
    assert_eq!(status, RoundStatus::Stood);
}
