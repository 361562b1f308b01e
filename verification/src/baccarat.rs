//! A complete single-player baccarat table: build the multi-deck shoe,
//! shuffle it from the rolling seed, deal by the fixed tableau (player draws
//! at five or less, the banker by the standard third-card rules), and settle
//! Player, Banker (with the five percent commission), and Tie bets. The
//! whole round is one deterministic transition of the table state.

use vstd::prelude::*;

use crate::cards::{suit_name, suit_str, value_name, value_str};
use crate::engine::spec_shuffled;
use crate::error::Error;
use crate::rng::{next_of, seed_of};

verus! {

/// Starting configuration: balance, seed, and the number of 52-card decks
/// in the shoe (0 means the house default of 6).
#[derive(Clone, Copy, Debug)]
pub struct BaccaratInit {
    pub starting_balance: u64,
    pub random_seed: u64,
    pub num_decks: u8,
}

/// The three sides a bet can back.
#[derive(Clone, Copy, Debug, PartialEq, Eq, Structural)]
pub enum BetType {
    Player,
    Banker,
    Tie,
}

/// The operation surface of the baccarat table.
#[derive(Clone, Copy, Debug)]
pub enum Operation {
    /// Place a bet and resolve a complete round.
    PlaceBetAndDeal { bet: u64, bet_type: BetType },
    /// Clear table data after a round is complete.
    ResetRound,
}

/// Who took the round.
#[derive(Clone, Copy, Debug, PartialEq, Eq, Structural)]
pub enum Winner {
    Player,
    Banker,
    Tie,
}

/// Everything a settled round reports: both final values, the winner,
/// whether a natural ended the deal, the third-card activity, whether a
/// non-tie bet pushed, and the signed net profit.
#[derive(Clone, Copy, Debug, PartialEq, Eq, Structural)]
pub struct RoundResult {
    pub player_value: u8,
    pub banker_value: u8,
    pub winner: Winner,
    pub is_natural: bool,
    pub player_third_card_value: Option<u8>,
    pub banker_drew_third_card: bool,
    /// True if a non-tie bet was pushed due to tie.
    pub pushed: bool,
    /// Net profit relative to the placed bet, signed.
    pub net_profit: i64,
}

/// A shoe card: named suit and value, a unique id, and its baccarat points.
#[derive(Debug)]
pub struct Card {
    pub suit: String,
    pub value: String,
    pub id: String,
    pub point_value: u8,
}

#[verifier::ext_equal]
pub struct CardView {
    pub suit: Seq<char>,
    pub value: Seq<char>,
    pub id: Seq<char>,
    pub point_value: u8,
}

impl View for Card {
    type V = CardView;

    open spec fn view(&self) -> CardView {
        CardView {
            suit: self.suit@,
            value: self.value@,
            id: self.id@,
            point_value: self.point_value,
        }
    }
}

/// The baccarat points of a value name: ace one, two through nine their
/// number, tens and face cards zero.
pub open spec fn spec_baccarat_points(v: Seq<char>) -> u8 {
    if v == "ace"@ {
        1
    } else if v == "2"@ {
        2
    } else if v == "3"@ {
        3
    } else if v == "4"@ {
        4
    } else if v == "5"@ {
        5
    } else if v == "6"@ {
        6
    } else if v == "7"@ {
        7
    } else if v == "8"@ {
        8
    } else if v == "9"@ {
        9
    } else {
        0
    }
}

/// The card `Card::new` builds: id `value_of_suit` plus the given suffix,
/// points from the value name.
pub open spec fn spec_card_new(suit: Seq<char>, value: Seq<char>, id_suffix: Seq<char>)
    -> CardView {
    CardView {
        suit: suit,
        value: value,
        id: value + "_of_"@ + suit + id_suffix,
        point_value: spec_baccarat_points(value),
    }
}

impl Card {
    pub fn new(suit: &str, value: &str, id_suffix: &str) -> (r: Card)
        ensures
            r@ == spec_card_new(suit@, value@, id_suffix@),
    {
        let point_value = baccarat_points(value);
        let mut id = String::from_str(value);
        id.append("_of_");
        id.append(suit);
        id.append(id_suffix);
        let r = Card {
            suit: String::from_str(suit),
            value: String::from_str(value),
            id,
            point_value,
        };
        proof {
            assert(r@ =~= spec_card_new(suit@, value@, id_suffix@));
        }
        r
    }
}

/// The baccarat points of this value name.
pub fn baccarat_points(value: &str) -> (r: u8)
    ensures
        r == spec_baccarat_points(value@),
{
    if crate::cards::str_eq(value, "ace") {
        1
    } else if crate::cards::str_eq(value, "2") {
        2
    } else if crate::cards::str_eq(value, "3") {
        3
    } else if crate::cards::str_eq(value, "4") {
        4
    } else if crate::cards::str_eq(value, "5") {
        5
    } else if crate::cards::str_eq(value, "6") {
        6
    } else if crate::cards::str_eq(value, "7") {
        7
    } else if crate::cards::str_eq(value, "8") {
        8
    } else if crate::cards::str_eq(value, "9") {
        9
    } else {
        0
    }
}

/// The decimal digit character for `d`.
pub open spec fn spec_digit_char(d: int) -> char {
    if d == 0 {
        '0'
    } else if d == 1 {
        '1'
    } else if d == 2 {
        '2'
    } else if d == 3 {
        '3'
    } else if d == 4 {
        '4'
    } else if d == 5 {
        '5'
    } else if d == 6 {
        '6'
    } else if d == 7 {
        '7'
    } else if d == 8 {
        '8'
    } else {
        '9'
    }
}

/// The decimal digits of `n`, most significant first.
pub open spec fn spec_dec_digits(n: int) -> Seq<char>
    decreases n,
{
    if n < 10 {
        seq![spec_digit_char(n)]
    } else {
        spec_dec_digits(n / 10) + seq![spec_digit_char(n % 10)]
    }
}

/// The one-character string for digit `d`.
fn digit_str(d: u64) -> (r: &'static str)
    requires
        d < 10,
    ensures
        r@ == seq![spec_digit_char(d as int)],
{
    if d == 0 {
        proof {
            reveal_strlit("0");
        }
        "0"
    } else if d == 1 {
        proof {
            reveal_strlit("1");
        }
        "1"
    } else if d == 2 {
        proof {
            reveal_strlit("2");
        }
        "2"
    } else if d == 3 {
        proof {
            reveal_strlit("3");
        }
        "3"
    } else if d == 4 {
        proof {
            reveal_strlit("4");
        }
        "4"
    } else if d == 5 {
        proof {
            reveal_strlit("5");
        }
        "5"
    } else if d == 6 {
        proof {
            reveal_strlit("6");
        }
        "6"
    } else if d == 7 {
        proof {
            reveal_strlit("7");
        }
        "7"
    } else if d == 8 {
        proof {
            reveal_strlit("8");
        }
        "8"
    } else {
        proof {
            reveal_strlit("9");
        }
        "9"
    }
}

/// Render `n` in decimal.
pub fn u64_to_dec(n: u64) -> (r: String)
    ensures
        r@ == spec_dec_digits(n as int),
    decreases n,
{
    if n < 10 {
        let r = String::from_str(digit_str(n));
        proof {
            assert(r@ =~= spec_dec_digits(n as int));
        }
        r
    } else {
        let mut r = u64_to_dec(n / 10);
        r.append(digit_str(n % 10));
        proof {
            assert(r@ =~= spec_dec_digits(n as int));
        }
        r
    }
}

/// The id suffix of shoe position `k`: `_deck_` plus the deck number plus
/// `_` plus the overall position.
pub open spec fn spec_shoe_suffix(k: int) -> Seq<char> {
    "_deck_"@ + spec_dec_digits(k / 52) + "_"@ + spec_dec_digits(k)
}

/// The card at position `k` of the unshuffled shoe: decks in order, suits
/// in order within a deck, values in order within a suit.
pub open spec fn spec_shoe_card(k: int) -> CardView {
    spec_card_new(suit_name((k % 52) / 13), value_name((k % 52) % 13), spec_shoe_suffix(k))
}

/// The unshuffled shoe of `d` decks.
pub open spec fn spec_shoe(d: nat) -> Seq<CardView> {
    Seq::new(d * 52, |k: int| spec_shoe_card(k))
}

/// The card at shoe position `k`.
fn shoe_card_from_index(k: usize) -> (r: Card)
    requires
        k < 52 * 256,
    ensures
        r@ == spec_shoe_card(k as int),
{
    let mut suffix = String::from_str("_deck_");
    let deck_number = u64_to_dec((k / 52) as u64);
    suffix.append(deck_number.as_str());
    suffix.append("_");
    let position = u64_to_dec(k as u64);
    suffix.append(position.as_str());
    proof {
        assert(suffix@ =~= spec_shoe_suffix(k as int));
    }
    let j = k % 52;
    let r = Card::new(suit_str(j / 13), value_str(j % 13), suffix.as_str());
    proof {
        assert(r@ =~= spec_shoe_card(k as int));
    }
    r
}

/// The hand's baccarat value: the sum of its point values, modulo ten.
pub open spec fn spec_points_sum(cards: Seq<CardView>) -> int
    decreases cards.len(),
{
    if cards.len() == 0 {
        0
    } else {
        spec_points_sum(cards.drop_last()) + cards.last().point_value
    }
}

/// The hand's baccarat value.
pub open spec fn spec_baccarat_value(cards: Seq<CardView>) -> u8 {
    (spec_points_sum(cards) % 10) as u8
}

/// Compute the hand's baccarat value.
pub fn calculate_value(hand: &Vec<Card>) -> (r: u8)
    requires
        forall|i: int|
            0 <= i < hand@.len() ==> (#[trigger] hand@[i])@.point_value <= 9,
    ensures
        r == spec_baccarat_value(hand@.map_values(|c: Card| c@)),
{
    let ghost cv: Seq<CardView> = hand@.map_values(|c: Card| c@);
    let mut acc: u8 = 0;
    let mut k: usize = 0;
    while k < hand.len()
        invariant
            k <= hand@.len(),
            cv == hand@.map_values(|c: Card| c@),
            cv.len() == hand@.len(),
            forall|i: int| 0 <= i < hand@.len() ==> (#[trigger] hand@[i])@.point_value <= 9,
            acc < 10,
            acc == spec_points_sum(cv.take(k as int)) % 10,
        decreases hand@.len() - k,
    {
        let p = hand[k].point_value;
        proof {
            assert(cv[k as int] == hand@[k as int]@);
            assert(hand@[k as int]@.point_value <= 9);
        }
        acc = (acc + p) % 10;
        proof {
            assert(cv.take(k + 1).drop_last() =~= cv.take(k as int));
            assert(cv.take(k + 1).last() == cv[k as int]);
            let s = spec_points_sum(cv.take(k as int));
            assert(s >= 0) by {
                lemma_points_sum_nonneg(cv.take(k as int));
            }
            assert((s % 10 + p) % 10 == (s + p) % 10) by (nonlinear_arith)
                requires
                    s >= 0,
                    0 <= p <= 9,
            ;
        }
        k += 1;
    }
    proof {
        assert(cv.take(cv.len() as int) =~= cv);
        lemma_points_sum_nonneg(cv);
    }
    acc
}

proof fn lemma_points_sum_nonneg(cards: Seq<CardView>)
    ensures
        spec_points_sum(cards) >= 0,
    decreases cards.len(),
{
    if cards.len() > 0 {
        lemma_points_sum_nonneg(cards.drop_last());
    }
}

/// The player stands on six or seven and draws at five or less; at eight or
/// nine the deal was a natural and nobody draws.
pub open spec fn spec_should_player_draw(value: u8) -> bool {
    value <= 5
}

/// Whether the player takes a third card at this value.
pub fn should_player_draw(value: u8) -> (r: bool)
    ensures
        r == spec_should_player_draw(value),
{
    value <= 5
}

/// The banker's tableau: never at seven or more; with no player third card,
/// at five or less; against a player third card, 0-2 always draw, 3 draws
/// unless it shows 8, 4 draws against 2-7, 5 against 4-7, 6 against 6-7.
pub open spec fn spec_should_banker_draw(banker_value: u8, player_third: Option<u8>) -> bool {
    if banker_value >= 7 {
        false
    } else {
        match player_third {
            None => banker_value <= 5,
            Some(v) => {
                if banker_value <= 2 {
                    true
                } else if banker_value == 3 {
                    v != 8
                } else if banker_value == 4 {
                    2 <= v <= 7
                } else if banker_value == 5 {
                    4 <= v <= 7
                } else if banker_value == 6 {
                    v == 6 || v == 7
                } else {
                    false
                }
            },
        }
    }
}

/// Whether the banker takes a third card.
pub fn should_banker_draw(banker_value: u8, player_third_card_value: Option<u8>) -> (r: bool)
    ensures
        r == spec_should_banker_draw(banker_value, player_third_card_value),
{
    if banker_value >= 7 {
        return false;
    }
    match player_third_card_value {
        None => banker_value <= 5,
        Some(v) => {
            if banker_value <= 2 {
                true
            } else if banker_value == 3 {
                v != 8
            } else if banker_value == 4 {
                2 <= v && v <= 7
            } else if banker_value == 5 {
                4 <= v && v <= 7
            } else if banker_value == 6 {
                v == 6 || v == 7
            } else {
                false
            }
        },
    }
}

/// Commission charged on a winning Banker bet, in basis points.
pub const BANKER_COMMISSION_BP: u64 = 500;

/// Net profit multiplier for a winning Tie bet.
pub const TIE_PAYOUT_MULTIPLIER: u64 = 8;

/// `a + b` capped at the top of `u64`.
pub open spec fn sat_add_u64(a: u64, b: u64) -> u64 {
    (if a + b > u64::MAX {
        u64::MAX as int
    } else {
        a + b
    }) as u64
}

/// `a * b` capped at the top of `u64`.
pub open spec fn sat_mul_u64(a: u64, b: u64) -> u64 {
    (if a * b > u64::MAX {
        u64::MAX as int
    } else {
        a * b
    }) as u64
}

/// A signed chip count clamped into the `i64` range.
pub open spec fn clamp_i64(x: int) -> i64 {
    if x > i64::MAX {
        i64::MAX
    } else if x < i64::MIN {
        i64::MIN
    } else {
        x as i64
    }
}

/// What a bet settles to against the round's winner, as (pushed, signed net
/// profit, chips credited back). A winning Player bet returns double; a
/// winning Banker bet pays the stake less the five percent commission on
/// top of the stake; a winning Tie bet pays eight to one; Player and Banker
/// bets push on a tie; everything else loses the stake. The signed profit is
/// clamped into the `i64` range, as the chip arithmetic saturates
/// everywhere.
pub open spec fn spec_settle(bet: u64, bet_type: BetType, winner: Winner) -> (bool, i64, u64) {
    if bet_type == BetType::Player && winner == Winner::Player {
        (false, clamp_i64(bet as int), sat_mul_u64(bet, 2))
    } else if bet_type == BetType::Banker && winner == Winner::Banker {
        let commission = sat_mul_u64(bet, BANKER_COMMISSION_BP) / 10000;
        let net = (bet - commission) as u64;
        (false, clamp_i64(net as int), sat_add_u64(bet, net))
    } else if bet_type == BetType::Tie && winner == Winner::Tie {
        let profit = sat_mul_u64(bet, TIE_PAYOUT_MULTIPLIER);
        (false, clamp_i64(profit as int), sat_add_u64(bet, profit))
    } else if winner == Winner::Tie {
        (true, 0, bet)
    } else {
        (false, clamp_i64(0 - bet as int), 0)
    }
}

/// An unsigned chip count clamped into the `i64` range.
fn clamp_u64_to_i64(x: u64) -> (r: i64)
    ensures
        r == clamp_i64(x as int),
{
    if x > i64::MAX as u64 {
        i64::MAX
    } else {
        x as i64
    }
}

/// Settle one bet against the winner, per `spec_settle`.
pub fn settle(bet: u64, bet_type: BetType, winner: Winner) -> (r: (bool, i64, u64))
    ensures
        r == spec_settle(bet, bet_type, winner),
{
    let player_win = matches!(bet_type, BetType::Player) && matches!(winner, Winner::Player);
    if player_win {
        let credit = if bet > u64::MAX / 2 {
            u64::MAX
        } else {
            bet * 2
        };
        return (false, clamp_u64_to_i64(bet), credit);
    }
    let banker_win = matches!(bet_type, BetType::Banker) && matches!(winner, Winner::Banker);
    if banker_win {
        let raw = if bet > u64::MAX / BANKER_COMMISSION_BP {
            u64::MAX
        } else {
            bet * BANKER_COMMISSION_BP
        };
        let commission = raw / 10000;
        proof {
            assert(commission <= bet);
        }
        let net = bet - commission;
        return (false, clamp_u64_to_i64(net), bet.saturating_add(net));
    }
    let tie_win = matches!(bet_type, BetType::Tie) && matches!(winner, Winner::Tie);
    if tie_win {
        let profit = if bet > u64::MAX / TIE_PAYOUT_MULTIPLIER {
            u64::MAX
        } else {
            bet * TIE_PAYOUT_MULTIPLIER
        };
        return (false, clamp_u64_to_i64(profit), bet.saturating_add(profit));
    }
    if matches!(winner, Winner::Tie) {
        return (true, 0, bet);
    }
    let neg: i64 = if bet >= 9223372036854775808u64 {
        i64::MIN
    } else {
        -(bet as i64)
    };
    (false, neg, 0)
}

/// The baccarat table: shoe, both hands, chips, the open bet, the last
/// round, the rolling seed, and the shoe size.
#[derive(Debug)]
pub struct BaccaratState {
    pub deck: Vec<Card>,
    pub player_hand: Vec<Card>,
    pub banker_hand: Vec<Card>,
    pub player_balance: u64,
    pub current_bet: u64,
    pub current_bet_type: Option<BetType>,
    pub last_result: Option<RoundResult>,
    pub random_seed: u64,
    pub num_decks: u8,
}

#[verifier::ext_equal]
pub struct BaccaratStateView {
    pub deck: Seq<CardView>,
    pub player_hand: Seq<CardView>,
    pub banker_hand: Seq<CardView>,
    pub player_balance: u64,
    pub current_bet: u64,
    pub current_bet_type: Option<BetType>,
    pub last_result: Option<RoundResult>,
    pub random_seed: u64,
    pub num_decks: u8,
}

impl View for BaccaratState {
    type V = BaccaratStateView;

    open spec fn view(&self) -> BaccaratStateView {
        BaccaratStateView {
            deck: self.deck@.map_values(|c: Card| c@),
            player_hand: self.player_hand@.map_values(|c: Card| c@),
            banker_hand: self.banker_hand@.map_values(|c: Card| c@),
            player_balance: self.player_balance,
            current_bet: self.current_bet,
            current_bet_type: self.current_bet_type,
            last_result: self.last_result,
            random_seed: self.random_seed,
            num_decks: self.num_decks,
        }
    }
}

/// The shoe size actually used: the configured deck count, with 0 standing
/// for the default of 6.
pub open spec fn spec_effective_decks(num_decks: u8) -> u8 {
    if num_decks == 0 {
        6
    } else {
        num_decks
    }
}

/// The complete round dealt from a shuffled shoe `s`: hands, values, the
/// tableau's third-card activity, and the remaining shoe.
#[verifier::ext_equal]
pub struct DealtRound {
    pub player_hand: Seq<CardView>,
    pub banker_hand: Seq<CardView>,
    pub player_value: u8,
    pub banker_value: u8,
    pub is_natural: bool,
    pub player_third: Option<u8>,
    pub banker_drew: bool,
    pub deck: Seq<CardView>,
}

/// Deal one round from shuffled shoe `s` by the fixed tableau.
pub open spec fn spec_deal_round(s: Seq<CardView>) -> DealtRound {
    let n = s.len() as int;
    let p0 = seq![s[n - 1], s[n - 2]];
    let b0 = seq![s[n - 3], s[n - 4]];
    let pv0 = spec_baccarat_value(p0);
    let bv0 = spec_baccarat_value(b0);
    let natural = pv0 >= 8 || bv0 >= 8;
    if natural {
        DealtRound {
            player_hand: p0,
            banker_hand: b0,
            player_value: pv0,
            banker_value: bv0,
            is_natural: true,
            player_third: None,
            banker_drew: false,
            deck: s.take(n - 4),
        }
    } else {
        let player_draws = spec_should_player_draw(pv0);
        let p1 = if player_draws {
            p0.push(s[n - 5])
        } else {
            p0
        };
        let third = if player_draws {
            Some(s[n - 5].point_value)
        } else {
            None
        };
        let used = if player_draws {
            5
        } else {
            4int
        };
        let pv1 = spec_baccarat_value(p1);
        let banker_draws = spec_should_banker_draw(bv0, third);
        let b1 = if banker_draws {
            b0.push(s[n - used - 1])
        } else {
            b0
        };
        let bv1 = spec_baccarat_value(b1);
        DealtRound {
            player_hand: p1,
            banker_hand: b1,
            player_value: pv1,
            banker_value: bv1,
            is_natural: false,
            player_third: third,
            banker_drew: banker_draws,
            deck: s.take(
                n - used - if banker_draws {
                    1int
                } else {
                    0int
                },
            ),
        }
    }
}

/// The winner by comparing final values.
pub open spec fn spec_winner(pv: u8, bv: u8) -> Winner {
    if pv > bv {
        Winner::Player
    } else if bv > pv {
        Winner::Banker
    } else {
        Winner::Tie
    }
}

/// What placing a bet and dealing does: reject a zero bet or a short
/// balance untouched; otherwise escrow the bet, shuffle a fresh shoe from
/// the stepped seed, deal the whole round by the tableau, settle the bet,
/// and record the round.
pub open spec fn spec_place_bet_and_deal(t: BaccaratStateView, bet: u64, bet_type: BetType)
    -> Result<BaccaratStateView, Error> {
    if bet == 0 {
        Err(Error::InvalidBet)
    } else if t.player_balance < bet {
        Err(Error::InsufficientBalance)
    } else {
        let d = spec_effective_decks(t.num_decks) as nat;
        let seed = next_of(seed_of(t.random_seed));
        let s = spec_shuffled(spec_shoe(d), seed);
        let round = spec_deal_round(s);
        let winner = spec_winner(round.player_value, round.banker_value);
        let outcome = spec_settle(bet, bet_type, winner);
        Ok(
            BaccaratStateView {
                deck: round.deck,
                player_hand: round.player_hand,
                banker_hand: round.banker_hand,
                player_balance: sat_add_u64((t.player_balance - bet) as u64, outcome.2),
                current_bet: bet,
                current_bet_type: Some(bet_type),
                last_result: Some(
                    (RoundResult {
                        player_value: round.player_value,
                        banker_value: round.banker_value,
                        winner: winner,
                        is_natural: round.is_natural,
                        player_third_card_value: round.player_third,
                        banker_drew_third_card: round.banker_drew,
                        pushed: outcome.0,
                        net_profit: outcome.1,
                    }),
                ),
                random_seed: seed,
                num_decks: t.num_decks,
            },
        )
    }
}

/// What resetting does: clear the shoe, the hands, the bet, and the last
/// result; balance, seed, and shoe size stay.
pub open spec fn spec_reset_round(t: BaccaratStateView) -> BaccaratStateView {
    BaccaratStateView {
        deck: Seq::empty(),
        player_hand: Seq::empty(),
        banker_hand: Seq::empty(),
        current_bet: 0,
        current_bet_type: None,
        last_result: None,
        ..t
    }
}

impl BaccaratState {
    /// Set up the table from its instantiation argument.
    pub fn instantiate(init: BaccaratInit) -> (r: BaccaratState)
        ensures
            r@.player_balance == init.starting_balance,
            r@.current_bet == 0,
            r@.current_bet_type is None,
            r@.last_result is None,
            r@.random_seed == seed_of(init.random_seed),
            r@.num_decks == spec_effective_decks(init.num_decks),
            r@.deck == Seq::<CardView>::empty(),
            r@.player_hand == Seq::<CardView>::empty(),
            r@.banker_hand == Seq::<CardView>::empty(),
    {
        let random_seed = if init.random_seed == 0 {
            crate::rng::SEED_FALLBACK
        } else {
            init.random_seed
        };
        let num_decks = if init.num_decks == 0 {
            6
        } else {
            init.num_decks
        };
        let r = BaccaratState {
            deck: Vec::new(),
            player_hand: Vec::new(),
            banker_hand: Vec::new(),
            player_balance: init.starting_balance,
            current_bet: 0,
            current_bet_type: None,
            last_result: None,
            random_seed,
            num_decks,
        };
        proof {
            assert(r@.deck =~= Seq::<CardView>::empty());
            assert(r@.player_hand =~= Seq::<CardView>::empty());
            assert(r@.banker_hand =~= Seq::<CardView>::empty());
        }
        r
    }

    /// Advance the rolling seed by one xorshift step and return it.
    fn bump_seed(&mut self) -> (r: u64)
        ensures
            r == next_of(seed_of(old(self).random_seed)),
            final(self).random_seed == r,
            final(self).deck == old(self).deck,
            final(self).player_hand == old(self).player_hand,
            final(self).banker_hand == old(self).banker_hand,
            final(self).player_balance == old(self).player_balance,
            final(self).current_bet == old(self).current_bet,
            final(self).current_bet_type == old(self).current_bet_type,
            final(self).last_result == old(self).last_result,
            final(self).num_decks == old(self).num_decks,
    {
        let mut rng = crate::rng::SimpleRng::new(self.random_seed);
        let next = rng.next();
        self.random_seed = next;
        next
    }

    /// Build and shuffle a fresh shoe from the stepped seed.
    fn new_shuffled_shoe(&mut self, num_decks: u8) -> (shoe: Vec<Card>)
        ensures
            shoe@.map_values(|c: Card| c@) == spec_shuffled(
                spec_shoe(spec_effective_decks(num_decks) as nat),
                next_of(seed_of(old(self).random_seed)),
            ),
            shoe@.len() == spec_effective_decks(num_decks) * 52,
            final(self).random_seed == next_of(seed_of(old(self).random_seed)),
            final(self).deck == old(self).deck,
            final(self).player_hand == old(self).player_hand,
            final(self).banker_hand == old(self).banker_hand,
            final(self).player_balance == old(self).player_balance,
            final(self).current_bet == old(self).current_bet,
            final(self).current_bet_type == old(self).current_bet_type,
            final(self).last_result == old(self).last_result,
            final(self).num_decks == old(self).num_decks,
    {
        let d: usize = if num_decks == 0 {
            6
        } else {
            num_decks as usize
        };
        let total: usize = d * 52;
        let mut perm: Vec<usize> = Vec::new();
        let mut k: usize = 0;
        while k < total
            invariant
                k <= total,
                perm@.len() == k,
                forall|i: int| 0 <= i < k ==> (#[trigger] perm@[i]) == i as usize,
            decreases total - k,
        {
            perm.push(k);
            k += 1;
        }
        proof {
            assert(perm@ =~= crate::cards::identity_perm(total as nat));
        }
        let seed = self.bump_seed();
        crate::engine::shuffle(&mut perm, seed);
        proof {
            crate::cards::lemma_shuffled_perm_bounds(total as nat, seed);
        }
        let ghost sh: Seq<CardView> = spec_shoe(spec_effective_decks(num_decks) as nat);
        let mut shoe: Vec<Card> = Vec::new();
        let mut k2: usize = 0;
        while k2 < total
            invariant
                k2 <= total,
                total == spec_effective_decks(num_decks) * 52,
                total < 52 * 256,
                shoe@.len() == k2,
                sh == spec_shoe(spec_effective_decks(num_decks) as nat),
                sh.len() == total,
                perm@ == spec_shuffled(crate::cards::identity_perm(total as nat), seed),
                perm@.len() == total,
                forall|i: int| 0 <= i < total ==> (#[trigger] perm@[i]) < total,
                forall|i: int| 0 <= i < k2 ==> (#[trigger] shoe@[i])@ == sh[perm@[i] as int],
            decreases total - k2,
        {
            shoe.push(shoe_card_from_index(perm[k2]));
            k2 += 1;
        }
        proof {
            crate::cards::lemma_shuffle_commute(sh, seed);
            assert(shoe@.map_values(|c: Card| c@) =~= spec_shuffled(sh, seed));
        }
        shoe
    }

    /// Escrow the bet, deal the full round by the tableau, and settle, per
    /// `spec_place_bet_and_deal`.
    pub fn place_bet_and_deal(&mut self, bet: u64, bet_type: BetType) -> (r: Result<(), Error>)
        ensures
            match spec_place_bet_and_deal(old(self)@, bet, bet_type) {
                Ok(v) => r is Ok && final(self)@ == v,
                Err(e) => r == Err::<(), Error>(e) && final(self)@ == old(self)@,
            },
    {
        if bet == 0 {
            return Err(Error::InvalidBet);
        }
        if self.player_balance < bet {
            return Err(Error::InsufficientBalance);
        }
        let ghost old_view: BaccaratStateView = self@;
        let num_decks = self.num_decks;
        let mut shoe = self.new_shuffled_shoe(num_decks);
        let ghost s: Seq<CardView> = shoe@.map_values(|c: Card| c@);
        proof {
            lemma_shoe_points_bounded(spec_effective_decks(num_decks) as nat);
            crate::engine::lemma_shuffled_multiset(
                spec_shoe(spec_effective_decks(num_decks) as nat),
                next_of(seed_of(old_view.random_seed)),
            );
            lemma_all_points_bounded_of_multiset(
                spec_shoe(spec_effective_decks(num_decks) as nat),
                s,
            );
        }
        let p1 = draw_card(&mut shoe);
        let p2 = draw_card(&mut shoe);
        let b1 = draw_card(&mut shoe);
        let b2 = draw_card(&mut shoe);
        let mut player_hand: Vec<Card> = Vec::new();
        let mut banker_hand: Vec<Card> = Vec::new();
        player_hand.push(p1);
        player_hand.push(p2);
        banker_hand.push(b1);
        banker_hand.push(b2);
        proof {
            assert(player_hand@.map_values(|c: Card| c@) =~= seq![
                s[s.len() - 1],
                s[s.len() - 2],
            ]);
            assert(banker_hand@.map_values(|c: Card| c@) =~= seq![
                s[s.len() - 3],
                s[s.len() - 4],
            ]);
        }
        let mut player_value = calculate_value(&player_hand);
        let mut banker_value = calculate_value(&banker_hand);
        let is_natural = player_value >= 8 || banker_value >= 8;
        let mut player_third_card_value: Option<u8> = None;
        let mut banker_drew_third = false;
        if !is_natural {
            if should_player_draw(player_value) {
                let third = draw_card(&mut shoe);
                player_third_card_value = Some(third.point_value);
                player_hand.push(third);
                proof {
                    assert(player_hand@.map_values(|c: Card| c@) =~= seq![
                        s[s.len() - 1],
                        s[s.len() - 2],
                    ].push(s[s.len() - 5]));
                }
                player_value = calculate_value(&player_hand);
            }
            if should_banker_draw(banker_value, player_third_card_value) {
                let third = draw_card(&mut shoe);
                banker_drew_third = true;
                let ghost pre: Seq<CardView> = banker_hand@.map_values(|c: Card| c@);
                banker_hand.push(third);
                proof {
                    let round = spec_deal_round(s);
                    assert(banker_hand@.map_values(|c: Card| c@) =~= round.banker_hand);
                }
                banker_value = calculate_value(&banker_hand);
            }
        }
        let winner = if player_value > banker_value {
            Winner::Player
        } else if banker_value > player_value {
            Winner::Banker
        } else {
            Winner::Tie
        };
        let outcome = settle(bet, bet_type, winner);
        self.player_balance = (self.player_balance - bet).saturating_add(outcome.2);
        self.current_bet = bet;
        self.current_bet_type = Some(bet_type);
        self.deck = shoe;
        self.player_hand = player_hand;
        self.banker_hand = banker_hand;
        self.last_result = Some(
            RoundResult {
                player_value,
                banker_value,
                winner,
                is_natural,
                player_third_card_value,
                banker_drew_third_card: banker_drew_third,
                pushed: outcome.0,
                net_profit: outcome.1,
            },
        );
        proof {
            let round = spec_deal_round(s);
            assert(self@.deck =~= round.deck);
            assert(self@ =~= spec_place_bet_and_deal(old_view, bet, bet_type)->Ok_0);
        }
        Ok(())
    }

    /// Clear the table after a round, per `spec_reset_round`.
    pub fn reset_round(&mut self) -> (r: Result<(), Error>)
        ensures
            r is Ok,
            final(self)@ == spec_reset_round(old(self)@),
    {
        self.deck = Vec::new();
        self.player_hand = Vec::new();
        self.banker_hand = Vec::new();
        self.current_bet = 0;
        self.current_bet_type = None;
        self.last_result = None;
        proof {
            assert(self@.deck =~= Seq::<CardView>::empty());
            assert(self@.player_hand =~= Seq::<CardView>::empty());
            assert(self@.banker_hand =~= Seq::<CardView>::empty());
            assert(self@ =~= spec_reset_round(old(self)@));
        }
        Ok(())
    }
}

/// Pop the next card from the end of the shoe; the caller must already have
/// checked that cards remain.
pub fn draw_card(deck: &mut Vec<Card>) -> (card: Card)
    requires
        old(deck)@.len() > 0,
    ensures
        card@ == old(deck)@.map_values(|c: Card| c@).last(),
        final(deck)@.map_values(|c: Card| c@) == old(deck)@.map_values(|c: Card| c@).drop_last(),
        final(deck)@.len() == old(deck)@.len() - 1,
{
    let card = deck.pop().unwrap();
    proof {
        assert(deck@.map_values(|c: Card| c@) =~= old(deck)@.map_values(
            |c: Card| c@,
        ).drop_last());
    }
    card
}

/// Every card of the unshuffled shoe carries at most nine points.
proof fn lemma_shoe_points_bounded(d: nat)
    ensures
        forall|i: int|
            0 <= i < spec_shoe(d).len() ==> (#[trigger] spec_shoe(d)[i]).point_value <= 9,
{
    assert forall|i: int|
        0 <= i < spec_shoe(d).len() implies (#[trigger] spec_shoe(d)[i]).point_value <= 9 by {
        assert(spec_shoe(d)[i] == spec_shoe_card(i));
    }
}

/// A permutation of a shoe whose cards are bounded is bounded too.
proof fn lemma_all_points_bounded_of_multiset(a: Seq<CardView>, b: Seq<CardView>)
    requires
        a.to_multiset() == b.to_multiset(),
        forall|i: int| 0 <= i < a.len() ==> (#[trigger] a[i]).point_value <= 9,
    ensures
        forall|i: int| 0 <= i < b.len() ==> (#[trigger] b[i]).point_value <= 9,
{
    broadcast use vstd::seq_lib::group_to_multiset_ensures;

    assert forall|i: int| 0 <= i < b.len() implies (#[trigger] b[i]).point_value <= 9 by {
        assert(b.contains(b[i]));
        assert(b.to_multiset().count(b[i]) > 0);
        assert(a.to_multiset().count(b[i]) > 0);
        assert(a.contains(b[i]));
        let m = choose|m: int| 0 <= m < a.len() && a[m] == b[i];
        assert(a[m].point_value <= 9);
    }
}

} // verus!
