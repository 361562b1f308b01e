use casino::baccarat::{
    calculate_value, settle, should_banker_draw, should_player_draw, u64_to_dec, BaccaratInit,
    BaccaratState, BetType, Card, Winner,
};
use casino::error::Error;

fn table(starting_balance: u64, random_seed: u64, num_decks: u8) -> BaccaratState {
    BaccaratState::instantiate(BaccaratInit { starting_balance, random_seed, num_decks })
}

#[test]
fn banker_win_charges_commission() {
    // Seed chosen so the banker's hand beats the player's.
    let mut app = table(1000, 1, 0);
    app.place_bet_and_deal(100, BetType::Banker).unwrap();
    let result = app.last_result.unwrap();
    assert_eq!(result.winner, Winner::Banker);
    // Commission is 100 * 500 / 10000 = 5, so the net profit is 95 and the
    // chips credited back are 100 + 95 = 195.
    assert_eq!(result.net_profit, 95);
    assert!(!result.pushed);
    assert_eq!(app.player_balance, 1000 - 100 + 195);
}

#[test]
fn settle_schedule() {
    assert_eq!(settle(100, BetType::Player, Winner::Player), (false, 100, 200));
    assert_eq!(settle(100, BetType::Banker, Winner::Banker), (false, 95, 195));
    assert_eq!(settle(100, BetType::Tie, Winner::Tie), (false, 800, 900));
    assert_eq!(settle(100, BetType::Player, Winner::Tie), (true, 0, 100));
    assert_eq!(settle(100, BetType::Banker, Winner::Tie), (true, 0, 100));
    assert_eq!(settle(100, BetType::Player, Winner::Banker), (false, -100, 0));
    assert_eq!(settle(100, BetType::Tie, Winner::Player), (false, -100, 0));
}

#[test]
fn baccarat_hand_values() {
    let hand = vec![
        Card::new("hearts", "9", "_a"),
        Card::new("spades", "7", "_b"),
    ];
    // 9 + 7 = 16, modulo 10 is 6.
    assert_eq!(calculate_value(&hand), 6);
    let face = vec![
        Card::new("hearts", "king", "_c"),
        Card::new("spades", "ace", "_d"),
    ];
    assert_eq!(calculate_value(&face), 1);
    let empty: Vec<Card> = vec![];
    assert_eq!(calculate_value(&empty), 0);
}

#[test]
fn card_points_and_id() {
    let card = Card::new("clubs", "10", "_deck_0_8");
    assert_eq!(card.point_value, 0);
    assert_eq!(card.id, "10_of_clubs_deck_0_8");
    assert_eq!(Card::new("clubs", "ace", "").point_value, 1);
    assert_eq!(Card::new("clubs", "9", "").point_value, 9);
}

#[test]
fn tableau_rules() {
    assert!(should_player_draw(5));
    assert!(!should_player_draw(6));
    assert!(!should_banker_draw(7, None));
    assert!(should_banker_draw(5, None));
    assert!(should_banker_draw(0, Some(9)));
    assert!(should_banker_draw(3, Some(7)));
    assert!(!should_banker_draw(3, Some(8)));
    assert!(should_banker_draw(4, Some(2)));
    assert!(!should_banker_draw(4, Some(1)));
    assert!(should_banker_draw(5, Some(4)));
    assert!(!should_banker_draw(5, Some(3)));
    assert!(should_banker_draw(6, Some(6)));
    assert!(!should_banker_draw(6, Some(5)));
}

#[test]
fn zero_and_short_bets_rejected() {
    let mut app = table(50, 3, 1);
    assert_eq!(app.place_bet_and_deal(0, BetType::Player), Err(Error::InvalidBet));
    assert_eq!(app.place_bet_and_deal(100, BetType::Player), Err(Error::InsufficientBalance));
    assert_eq!(app.player_balance, 50);
}

#[test]
fn shoe_size_and_round_shape() {
    let mut app = table(1000, 9, 2);
    assert_eq!(app.num_decks, 2);
    app.place_bet_and_deal(10, BetType::Player).unwrap();
    let result = app.last_result.unwrap();
    assert!(result.player_value <= 9 && result.banker_value <= 9);
    let drawn = app.player_hand.len() + app.banker_hand.len() + app.deck.len();
    assert_eq!(drawn, 2 * 52);
    // The default shoe holds six decks.
    let other = table(1000, 9, 0);
    assert_eq!(other.num_decks, 6);
}

#[test]
fn reset_round_clears_board() {
    let mut app = table(1000, 1, 0);
    app.place_bet_and_deal(100, BetType::Banker).unwrap();
    app.reset_round().unwrap();
    assert!(app.deck.is_empty());
    assert!(app.player_hand.is_empty());
    assert!(app.banker_hand.is_empty());
    assert_eq!(app.current_bet, 0);
    assert!(app.current_bet_type.is_none());
    assert!(app.last_result.is_none());
}

#[test]
fn decimal_rendering() {
    assert_eq!(u64_to_dec(0), "0");
    assert_eq!(u64_to_dec(7), "7");
    assert_eq!(u64_to_dec(312), "312");
    assert_eq!(u64_to_dec(1000000), "1000000");
}
