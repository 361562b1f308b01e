use casino::blackjack::payout_for;
use casino::cards::{calculate_hand_value, create_deck, determine_winner, Card, GameResult};
use casino::engine;
use casino::rng::SimpleRng;

#[test]
fn hand_value_matches_rules() {
    let hand = vec![
        Card::new("hearts", "ace"),
        Card::new("spades", "king"),
        Card::new("clubs", "5"),
    ];
    assert_eq!(calculate_hand_value(&hand), 16);
}

#[test]
fn card_new_builds_id() {
    let card = Card::new("hearts", "queen");
    assert_eq!(card.suit, "hearts");
    assert_eq!(card.value, "queen");
    assert_eq!(card.id, "queen_of_hearts");
}

#[test]
fn create_deck_enumerates_52() {
    let deck = create_deck();
    assert_eq!(deck.len(), 52);
    assert_eq!(deck[0].id, "2_of_clubs");
    assert_eq!(deck[12].id, "ace_of_clubs");
    assert_eq!(deck[13].id, "2_of_diamonds");
    assert_eq!(deck[51].id, "ace_of_spades");
}

#[test]
fn soft_ace_totals() {
    let hand = vec![Card::new("hearts", "ace"), Card::new("spades", "ace")];
    assert_eq!(calculate_hand_value(&hand), 12);
    let hand2 = vec![Card::new("hearts", "ace"), Card::new("spades", "10")];
    assert_eq!(calculate_hand_value(&hand2), 21);
    let empty: Vec<Card> = vec![];
    assert_eq!(calculate_hand_value(&empty), 0);
}

#[test]
fn winner_rules() {
    let p20 = vec![Card::new("hearts", "king"), Card::new("spades", "queen")];
    let d19 = vec![Card::new("clubs", "10"), Card::new("clubs", "9")];
    assert_eq!(determine_winner(&p20, &d19), GameResult::PlayerWin);
    assert_eq!(determine_winner(&d19, &p20), GameResult::DealerWin);
    assert_eq!(determine_winner(&p20, &p20), GameResult::Push);
    let bust = vec![
        Card::new("hearts", "king"),
        Card::new("spades", "queen"),
        Card::new("clubs", "5"),
    ];
    assert_eq!(determine_winner(&bust, &d19), GameResult::PlayerBust);
    assert_eq!(determine_winner(&p20, &bust), GameResult::DealerBust);
    // A player bust loses even when the dealer busts too.
    assert_eq!(determine_winner(&bust, &bust), GameResult::PlayerBust);
}

#[test]
fn xorshift_stream_is_deterministic() {
    let mut a = SimpleRng::new(42);
    let mut b = SimpleRng::new(42);
    for _ in 0..10 {
        assert_eq!(a.next(), b.next());
    }
    // A zero seed is remapped, not left on the all-zero fixed point.
    let mut z = SimpleRng::new(0);
    assert_ne!(z.next(), 0);
}

#[test]
fn engine_card_index_round_trip() {
    for index in 0..52u8 {
        let card = engine::Card::from_index(index);
        assert!(card.rank < 13 && card.suit < 4);
        assert_eq!(card.to_index(), index);
    }
    let ace = engine::Card { rank: 0, suit: 1 };
    assert_eq!(ace.blackjack_value(), 11);
    let king = engine::Card { rank: 12, suit: 0 };
    assert_eq!(king.blackjack_value(), 10);
    let five = engine::Card { rank: 4, suit: 3 };
    assert_eq!(five.blackjack_value(), 5);
}

#[test]
fn engine_shuffle_is_a_deterministic_permutation() {
    let mut a = engine::build_deck(1);
    let mut b = engine::build_deck(1);
    engine::shuffle(&mut a, 7);
    engine::shuffle(&mut b, 7);
    assert_eq!(a, b);
    let mut seen = [false; 52];
    for card in &a {
        let index = card.to_index() as usize;
        assert!(!seen[index]);
        seen[index] = true;
    }
    let mut c = engine::build_deck(1);
    engine::shuffle(&mut c, 8);
    assert_ne!(a, c);
}

#[test]
fn engine_hand_values() {
    let deck = engine::build_deck(2);
    assert_eq!(deck.len(), 104);
    let hand = vec![
        engine::Card { rank: 0, suit: 0 },
        engine::Card { rank: 12, suit: 1 },
        engine::Card { rank: 4, suit: 2 },
    ];
    assert_eq!(engine::hand_value(&hand), 16);
    assert_eq!(engine::hand_value_baccarat(&hand), 6);
    assert!(engine::dealer_should_draw(16));
    assert!(!engine::dealer_should_draw(17));
}

#[test]
fn payouts_saturate_instead_of_wrapping() {
    // A blackjack on the largest possible bet caps at the top of the range
    // instead of wrapping around.
    assert_eq!(payout_for(GameResult::PlayerBlackjack, u64::MAX), u64::MAX / 2);
    assert_eq!(payout_for(GameResult::PlayerWin, u64::MAX), u64::MAX);
    assert_eq!(payout_for(GameResult::Push, u64::MAX), u64::MAX);
    assert_eq!(payout_for(GameResult::DealerWin, u64::MAX), 0);
    // Ordinary values are exact.
    assert_eq!(payout_for(GameResult::PlayerBlackjack, 10), 25);
    assert_eq!(payout_for(GameResult::DealerBust, 10), 20);
    assert_eq!(payout_for(GameResult::Push, 10), 10);
    assert_eq!(payout_for(GameResult::PlayerBust, 10), 0);
}
