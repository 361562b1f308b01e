//! An American-wheel roulette table: place a batch of validated bets, spin
//! the seeded wheel, and settle every bet at its fixed odds. The wheel slot
//! is a pure function of the rolling seed, so a spin is reproducible, and
//! all balance arithmetic saturates.

use vstd::prelude::*;

use crate::error::Error;
use crate::rng::{next_of, seed_of};

verus! {

/// Starting configuration: the balance credited at instantiation and the
/// seed for deterministic spins.
#[derive(Clone, Copy, Debug)]
pub struct RouletteInit {
    pub starting_balance: u64,
    pub random_seed: u64,
}

/// The kinds of bet the table takes.
#[derive(Clone, Copy, Debug, PartialEq, Eq, Structural)]
pub enum BetType {
    /// Straight up bet on a single number (0-36, or 37 for 00).
    StraightUp,
    /// Red or Black.
    Color,
    /// Odd or Even (excludes 0 and 00).
    Parity,
    /// High (19-36) or Low (1-18).
    Range,
    /// Dozens (1-12, 13-24, 25-36).
    Dozen,
    /// Columns (1st, 2nd, 3rd column).
    Column,
}

/// One bet: its kind, its stake, and the selection within the kind
/// (the number for StraightUp; 0 = Red, 1 = Black for Color; 0 = Even,
/// 1 = Odd for Parity; 0 = Low, 1 = High for Range; the dozen or column
/// index otherwise).
#[derive(Clone, Copy, Debug, PartialEq, Eq, Structural)]
pub struct Bet {
    pub bet_type: BetType,
    pub amount: u64,
    pub selection: u8,
}

/// The operation surface of the roulette table.
#[derive(Clone, Debug)]
pub enum Operation {
    /// Place multiple bets and spin the wheel.
    PlaceBetsAndSpin { bets: Vec<Bet> },
    /// Reset the table for a new round.
    ResetRound,
}

/// How one bet fared against the winning number.
#[derive(Clone, Copy, Debug, PartialEq, Eq, Structural)]
pub struct BetResult {
    pub bet: Bet,
    pub won: bool,
    pub payout: u64,
}

/// One finished spin: the winning number, its color (None for the green
/// zeros), and every bet's outcome.
#[derive(Clone, Debug)]
pub struct SpinResult {
    pub winning_number: u8,
    pub is_red: Option<bool>,
    pub total_payout: u64,
    pub bet_results: Vec<BetResult>,
}

#[verifier::ext_equal]
pub struct SpinResultView {
    pub winning_number: u8,
    pub is_red: Option<bool>,
    pub total_payout: u64,
    pub bet_results: Seq<BetResult>,
}

impl View for SpinResult {
    type V = SpinResultView;

    open spec fn view(&self) -> SpinResultView {
        SpinResultView {
            winning_number: self.winning_number,
            is_red: self.is_red,
            total_payout: self.total_payout,
            bet_results: self.bet_results@,
        }
    }
}

/// An append-only history entry for one spin.
#[derive(Clone, Debug)]
pub struct GameRecord {
    pub bets: Vec<Bet>,
    pub spin_result: SpinResult,
    pub timestamp: u64,
}

#[verifier::ext_equal]
pub struct GameRecordView {
    pub bets: Seq<Bet>,
    pub spin_result: SpinResultView,
    pub timestamp: u64,
}

impl View for GameRecord {
    type V = GameRecordView;

    open spec fn view(&self) -> GameRecordView {
        GameRecordView { bets: self.bets@, spin_result: self.spin_result@, timestamp: self.timestamp }
    }
}

/// The roulette table: balance, the bets of the current round, the last
/// spin, the rolling seed, and the append-only history.
#[derive(Debug)]
pub struct RouletteState {
    pub player_balance: u64,
    pub current_bets: Vec<Bet>,
    pub last_result: Option<SpinResult>,
    pub random_seed: u64,
    pub game_history: Vec<GameRecord>,
}

#[verifier::ext_equal]
pub struct RouletteStateView {
    pub player_balance: u64,
    pub current_bets: Seq<Bet>,
    pub last_result: Option<SpinResultView>,
    pub random_seed: u64,
    pub game_history: Seq<GameRecordView>,
}

impl View for RouletteState {
    type V = RouletteStateView;

    open spec fn view(&self) -> RouletteStateView {
        RouletteStateView {
            player_balance: self.player_balance,
            current_bets: self.current_bets@,
            last_result: match self.last_result {
                Some(ref r) => Some(r@),
                None => None,
            },
            random_seed: self.random_seed,
            game_history: self.game_history@.map_values(|r: GameRecord| r@),
        }
    }
}

/// Whether a wheel number is red (the American layout; 0 and 37, standing
/// for 00, are green and have no color).
pub open spec fn spec_is_red(n: u8) -> Option<bool> {
    if n == 0 || n == 37 {
        None
    } else if n == 1 || n == 3 || n == 5 || n == 7 || n == 9 || n == 12 || n == 14 || n == 16 || n
        == 18 || n == 19 || n == 21 || n == 23 || n == 25 || n == 27 || n == 28 || n == 30 || n
        == 32 || n == 34 || n == 36 {
        Some(true)
    } else {
        Some(false)
    }
}

/// Whether `number` lands red, black, or (for the zeros) neither.
pub fn is_red_number(number: u8) -> (r: Option<bool>)
    ensures
        r == spec_is_red(number),
{
    if number == 0 || number == 37 {
        None
    } else if number == 1 || number == 3 || number == 5 || number == 7 || number == 9 || number
        == 12 || number == 14 || number == 16 || number == 18 || number == 19 || number == 21
        || number == 23 || number == 25 || number == 27 || number == 28 || number == 30 || number
        == 32 || number == 34 || number == 36 {
        Some(true)
    } else {
        Some(false)
    }
}

/// The winnings-to-stake odds of each bet kind.
pub open spec fn spec_multiplier(t: BetType) -> u64 {
    match t {
        BetType::StraightUp => 35,
        BetType::Color => 1,
        BetType::Parity => 1,
        BetType::Range => 1,
        BetType::Dozen => 2,
        BetType::Column => 2,
    }
}

/// The winnings-to-stake odds of a bet kind.
pub fn get_payout_multiplier(bet_type: BetType) -> (r: u64)
    ensures
        r == spec_multiplier(bet_type),
{
    match bet_type {
        BetType::StraightUp => 35,
        BetType::Color => 1,
        BetType::Parity => 1,
        BetType::Range => 1,
        BetType::Dozen => 2,
        BetType::Column => 2,
    }
}

/// Whether a bet's selection lies in range for its kind.
pub open spec fn spec_valid_selection(b: Bet) -> bool {
    match b.bet_type {
        BetType::StraightUp => b.selection <= 37,
        BetType::Color => b.selection <= 1,
        BetType::Parity => b.selection <= 1,
        BetType::Range => b.selection <= 1,
        BetType::Dozen => b.selection <= 2,
        BetType::Column => b.selection <= 2,
    }
}

/// Check a bet's selection against its kind's range.
pub fn validate_bet(bet: &Bet) -> (r: Result<(), Error>)
    ensures
        r is Ok <==> spec_valid_selection(*bet),
        r is Err ==> r == Err::<(), Error>(Error::InvalidBet),
{
    let ok = match bet.bet_type {
        BetType::StraightUp => bet.selection <= 37,
        BetType::Color => bet.selection <= 1,
        BetType::Parity => bet.selection <= 1,
        BetType::Range => bet.selection <= 1,
        BetType::Dozen => bet.selection <= 2,
        BetType::Column => bet.selection <= 2,
    };
    if ok {
        Ok(())
    } else {
        Err(Error::InvalidBet)
    }
}

/// Whether a bet wins against winning number `w`: the green zeros lose every
/// non-straight-up bet; otherwise color, parity, range, dozen, and column
/// read off the number.
pub open spec fn spec_bet_wins(b: Bet, w: u8) -> bool {
    match b.bet_type {
        BetType::StraightUp => b.selection == w,
        BetType::Color => {
            if w == 0 || w == 37 {
                false
            } else {
                let red = spec_is_red(w) == Some(true);
                (b.selection == 0 && red) || (b.selection == 1 && !red)
            }
        },
        BetType::Parity => {
            if w == 0 || w == 37 {
                false
            } else {
                let even = w % 2 == 0;
                (b.selection == 0 && even) || (b.selection == 1 && !even)
            }
        },
        BetType::Range => {
            if w == 0 || w == 37 {
                false
            } else {
                let low = 1 <= w <= 18;
                (b.selection == 0 && low) || (b.selection == 1 && !low)
            }
        },
        BetType::Dozen => {
            if w == 0 || w == 37 {
                false
            } else {
                (w - 1) / 12 == b.selection
            }
        },
        BetType::Column => {
            if w == 0 || w == 37 {
                false
            } else {
                (w - 1) % 3 == b.selection
            }
        },
    }
}

/// Decide one bet against the winning number.
pub fn check_bet_win(bet: &Bet, winning_number: u8) -> (r: bool)
    ensures
        r == spec_bet_wins(*bet, winning_number),
{
    match bet.bet_type {
        BetType::StraightUp => bet.selection == winning_number,
        BetType::Color => {
            if winning_number == 0 || winning_number == 37 {
                false
            } else {
                let red = match is_red_number(winning_number) {
                    Some(c) => c,
                    None => false,
                };
                (bet.selection == 0 && red) || (bet.selection == 1 && !red)
            }
        },
        BetType::Parity => {
            if winning_number == 0 || winning_number == 37 {
                false
            } else {
                let even = winning_number % 2 == 0;
                (bet.selection == 0 && even) || (bet.selection == 1 && !even)
            }
        },
        BetType::Range => {
            if winning_number == 0 || winning_number == 37 {
                false
            } else {
                let low = 1 <= winning_number && winning_number <= 18;
                (bet.selection == 0 && low) || (bet.selection == 1 && !low)
            }
        },
        BetType::Dozen => {
            if winning_number == 0 || winning_number == 37 {
                false
            } else {
                (winning_number - 1) / 12 == bet.selection
            }
        },
        BetType::Column => {
            if winning_number == 0 || winning_number == 37 {
                false
            } else {
                (winning_number - 1) % 3 == bet.selection
            }
        },
    }
}

/// The physical slot order of the American wheel; position 19 holds 37,
/// standing for 00.
pub open spec fn spec_wheel_number(i: int) -> u8 {
    if i == 0 {
        0
    } else if i == 1 {
        28
    } else if i == 2 {
        9
    } else if i == 3 {
        26
    } else if i == 4 {
        30
    } else if i == 5 {
        11
    } else if i == 6 {
        7
    } else if i == 7 {
        20
    } else if i == 8 {
        32
    } else if i == 9 {
        17
    } else if i == 10 {
        5
    } else if i == 11 {
        22
    } else if i == 12 {
        34
    } else if i == 13 {
        15
    } else if i == 14 {
        3
    } else if i == 15 {
        24
    } else if i == 16 {
        36
    } else if i == 17 {
        13
    } else if i == 18 {
        1
    } else if i == 19 {
        37
    } else if i == 20 {
        27
    } else if i == 21 {
        10
    } else if i == 22 {
        25
    } else if i == 23 {
        29
    } else if i == 24 {
        12
    } else if i == 25 {
        8
    } else if i == 26 {
        19
    } else if i == 27 {
        31
    } else if i == 28 {
        18
    } else if i == 29 {
        6
    } else if i == 30 {
        21
    } else if i == 31 {
        33
    } else if i == 32 {
        16
    } else if i == 33 {
        4
    } else if i == 34 {
        23
    } else if i == 35 {
        35
    } else if i == 36 {
        14
    } else {
        2
    }
}

/// The wheel slot at position `i`.
pub fn wheel_number(i: usize) -> (r: u8)
    requires
        i < 38,
    ensures
        r == spec_wheel_number(i as int),
{
    if i == 0 {
        0
    } else if i == 1 {
        28
    } else if i == 2 {
        9
    } else if i == 3 {
        26
    } else if i == 4 {
        30
    } else if i == 5 {
        11
    } else if i == 6 {
        7
    } else if i == 7 {
        20
    } else if i == 8 {
        32
    } else if i == 9 {
        17
    } else if i == 10 {
        5
    } else if i == 11 {
        22
    } else if i == 12 {
        34
    } else if i == 13 {
        15
    } else if i == 14 {
        3
    } else if i == 15 {
        24
    } else if i == 16 {
        36
    } else if i == 17 {
        13
    } else if i == 18 {
        1
    } else if i == 19 {
        37
    } else if i == 20 {
        27
    } else if i == 21 {
        10
    } else if i == 22 {
        25
    } else if i == 23 {
        29
    } else if i == 24 {
        12
    } else if i == 25 {
        8
    } else if i == 26 {
        19
    } else if i == 27 {
        31
    } else if i == 28 {
        18
    } else if i == 29 {
        6
    } else if i == 30 {
        21
    } else if i == 31 {
        33
    } else if i == 32 {
        16
    } else if i == 33 {
        4
    } else if i == 34 {
        23
    } else if i == 35 {
        35
    } else if i == 36 {
        14
    } else {
        2
    }
}

/// The winning number a spin from stored seed `cur` produces: the seed steps
/// once to seed the spin generator, whose first draw picks the wheel slot.
pub open spec fn spec_spin_from(cur: u64) -> u8 {
    spec_wheel_number((next_of(seed_of(next_of(seed_of(cur)))) as int) % 38)
}

/// `a + b` capped at the top of `u64`.
pub open spec fn sat_add_u64(a: u64, b: u64) -> u64 {
    (if a + b > u64::MAX {
        u64::MAX as int
    } else {
        a + b
    }) as u64
}

/// `a * b` capped at the top of `u64`.
pub open spec fn sat_mul_u64(a: u64, b: u64) -> u64 {
    (if a * b > u64::MAX {
        u64::MAX as int
    } else {
        a * b
    }) as u64
}

/// What one winning bet pays back: the stake plus stake times odds,
/// saturating; a losing bet pays nothing.
pub open spec fn spec_bet_payout(b: Bet, w: u8) -> u64 {
    if spec_bet_wins(b, w) {
        sat_add_u64(b.amount, sat_mul_u64(b.amount, spec_multiplier(b.bet_type)))
    } else {
        0
    }
}

/// The stakes of all bets summed, saturating.
pub open spec fn spec_total_amount(bets: Seq<Bet>) -> u64
    decreases bets.len(),
{
    if bets.len() == 0 {
        0
    } else {
        sat_add_u64(spec_total_amount(bets.drop_last()), bets.last().amount)
    }
}

/// The payouts of all bets against `w` summed, saturating.
pub open spec fn spec_total_payout(bets: Seq<Bet>, w: u8) -> u64
    decreases bets.len(),
{
    if bets.len() == 0 {
        0
    } else {
        sat_add_u64(spec_total_payout(bets.drop_last(), w), spec_bet_payout(bets.last(), w))
    }
}

/// Every bet's individual outcome against `w`.
pub open spec fn spec_bet_results(bets: Seq<Bet>, w: u8) -> Seq<BetResult> {
    Seq::new(
        bets.len(),
        |i: int|
            (BetResult {
                bet: bets[i],
                won: spec_bet_wins(bets[i], w),
                payout: spec_bet_payout(bets[i], w),
            }),
    )
}

/// Whether every bet in the batch carries a positive stake and an in-range
/// selection.
pub open spec fn spec_all_bets_valid(bets: Seq<Bet>) -> bool {
    forall|i: int|
        0 <= i < bets.len() ==> (#[trigger] bets[i]).amount > 0 && spec_valid_selection(bets[i])
}

/// The spin a batch of bets produces from state `t`.
pub open spec fn spec_spin_result(t: RouletteStateView, bets: Seq<Bet>)
    -> SpinResultView {
    let w = spec_spin_from(t.random_seed);
    SpinResultView {
        winning_number: w,
        is_red: spec_is_red(w),
        total_payout: spec_total_payout(bets, w),
        bet_results: spec_bet_results(bets, w),
    }
}

/// What placing a batch of bets does: reject an empty batch, a short
/// balance, a zero total, or any single invalid bet, all without touching
/// state; otherwise escrow the stakes, spin, settle every bet at its odds,
/// and append the round to the history.
pub open spec fn spec_place_bets(t: RouletteStateView, bets: Seq<Bet>, now: u64) -> Result<
    RouletteStateView,
    Error,
> {
    if bets.len() == 0 {
        Err(Error::EmptyBets)
    } else if t.player_balance < spec_total_amount(bets) {
        Err(Error::InsufficientBalance)
    } else if spec_total_amount(bets) == 0 {
        Err(Error::InvalidBet)
    } else if !spec_all_bets_valid(bets) {
        Err(Error::InvalidBet)
    } else {
        let w = spec_spin_from(t.random_seed);
        let spin = spec_spin_result(t, bets);
        Ok(
            RouletteStateView {
                player_balance: sat_add_u64(
                    (t.player_balance - spec_total_amount(bets)) as u64,
                    spec_total_payout(bets, w),
                ),
                current_bets: bets,
                last_result: Some(spin),
                random_seed: next_of(seed_of(t.random_seed)),
                game_history: t.game_history.push(
                    (GameRecordView { bets: bets, spin_result: spin, timestamp: now }),
                ),
            },
        )
    }
}

/// What resetting does: clear the current bets and the last result; the
/// balance, seed, and history stay.
pub open spec fn spec_reset_round(t: RouletteStateView) -> RouletteStateView {
    RouletteStateView { current_bets: Seq::empty(), last_result: None, ..t }
}

impl RouletteState {
    /// Set up the table from its instantiation argument.
    pub fn instantiate(init: RouletteInit) -> (r: RouletteState)
        ensures
            r@.player_balance == init.starting_balance,
            r@.current_bets == Seq::<Bet>::empty(),
            r@.last_result is None,
            r@.random_seed == seed_of(init.random_seed),
            r@.game_history == Seq::<GameRecordView>::empty(),
    {
        let random_seed = if init.random_seed == 0 {
            crate::rng::SEED_FALLBACK
        } else {
            init.random_seed
        };
        let r = RouletteState {
            player_balance: init.starting_balance,
            current_bets: Vec::new(),
            last_result: None,
            random_seed,
            game_history: Vec::new(),
        };
        proof {
            assert(r@.current_bets =~= Seq::<Bet>::empty());
            assert(r@.game_history =~= Seq::<GameRecordView>::empty());
        }
        r
    }

    /// Advance the rolling seed by one xorshift step and return it.
    fn bump_seed(&mut self) -> (r: u64)
        ensures
            r == next_of(seed_of(old(self).random_seed)),
            final(self).random_seed == r,
            final(self).player_balance == old(self).player_balance,
            final(self).current_bets == old(self).current_bets,
            final(self).last_result == old(self).last_result,
            final(self).game_history == old(self).game_history,
    {
        let mut rng = crate::rng::SimpleRng::new(self.random_seed);
        let next = rng.next();
        self.random_seed = next;
        next
    }

    /// Spin the wheel once, stepping the rolling seed.
    pub fn spin_wheel(&mut self) -> (r: u8)
        ensures
            r == spec_spin_from(old(self).random_seed),
            final(self).random_seed == next_of(seed_of(old(self).random_seed)),
            final(self).player_balance == old(self).player_balance,
            final(self).current_bets == old(self).current_bets,
            final(self).last_result == old(self).last_result,
            final(self).game_history == old(self).game_history,
    {
        let seed = self.bump_seed();
        let mut rng = crate::rng::SimpleRng::new(seed);
        let draw = rng.next();
        let idx: usize = (draw % 38) as usize;
        wheel_number(idx)
    }

    /// Place the batch and spin, per `spec_place_bets`.
    pub fn place_bets_and_spin(&mut self, bets: Vec<Bet>, now: u64) -> (r: Result<(), Error>)
        ensures
            match spec_place_bets(old(self)@, bets@, now) {
                Ok(v) => r is Ok && final(self)@ == v,
                Err(e) => r == Err::<(), Error>(e) && final(self)@ == old(self)@,
            },
    {
        let ghost old_view: RouletteStateView = self@;
        if bets.is_empty() {
            return Err(Error::EmptyBets);
        }
        let mut total: u64 = 0;
        let mut k: usize = 0;
        while k < bets.len()
            invariant
                k <= bets@.len(),
                total == spec_total_amount(bets@.take(k as int)),
            decreases bets@.len() - k,
        {
            total = total.saturating_add(bets[k].amount);
            proof {
                assert(bets@.take(k + 1).drop_last() =~= bets@.take(k as int));
                assert(bets@.take(k + 1).last() == bets@[k as int]);
            }
            k += 1;
        }
        proof {
            assert(bets@.take(bets@.len() as int) =~= bets@);
        }
        if self.player_balance < total {
            return Err(Error::InsufficientBalance);
        }
        if total == 0 {
            return Err(Error::InvalidBet);
        }
        let mut k2: usize = 0;
        while k2 < bets.len()
            invariant
                k2 <= bets@.len(),
                bets@.len() > 0,
                self@ == old_view,
                old_view == old(self)@,
                total == spec_total_amount(bets@),
                total != 0,
                old_view.player_balance >= total,
                forall|i: int|
                    0 <= i < k2 ==> (#[trigger] bets@[i]).amount > 0 && spec_valid_selection(
                        bets@[i],
                    ),
            decreases bets@.len() - k2,
        {
            if bets[k2].amount == 0 {
                return Err(Error::InvalidBet);
            }
            let valid = validate_bet(&bets[k2]);
            if valid.is_err() {
                return Err(Error::InvalidBet);
            }
            k2 += 1;
        }
        let winning_number = self.spin_wheel();
        let is_red = is_red_number(winning_number);
        let mut bet_results: Vec<BetResult> = Vec::new();
        let mut total_payout: u64 = 0;
        let mut k3: usize = 0;
        while k3 < bets.len()
            invariant
                k3 <= bets@.len(),
                total_payout == spec_total_payout(bets@.take(k3 as int), winning_number),
                bet_results@ == spec_bet_results(bets@.take(k3 as int), winning_number),
            decreases bets@.len() - k3,
        {
            let won = check_bet_win(&bets[k3], winning_number);
            let payout: u64 = if won {
                let amount = bets[k3].amount;
                let winnings: u64 = match bets[k3].bet_type {
                    BetType::StraightUp => {
                        if amount > u64::MAX / 35 {
                            u64::MAX
                        } else {
                            amount * 35
                        }
                    },
                    BetType::Dozen | BetType::Column => {
                        if amount > u64::MAX / 2 {
                            u64::MAX
                        } else {
                            amount * 2
                        }
                    },
                    BetType::Color | BetType::Parity | BetType::Range => amount,
                };
                amount.saturating_add(winnings)
            } else {
                0
            };
            total_payout = total_payout.saturating_add(payout);
            bet_results.push(BetResult { bet: bets[k3], won, payout });
            proof {
                assert(bets@.take(k3 + 1).drop_last() =~= bets@.take(k3 as int));
                assert(bets@.take(k3 + 1).last() == bets@[k3 as int]);
                assert(bet_results@ =~= spec_bet_results(bets@.take(k3 + 1), winning_number));
            }
            k3 += 1;
        }
        proof {
            assert(bets@.take(bets@.len() as int) =~= bets@);
        }
        self.player_balance = (self.player_balance - total).saturating_add(total_payout);
        let spin_result = SpinResult { winning_number, is_red, total_payout, bet_results };
        let record_bets = copy_bets(&bets);
        let record_result = copy_spin_result(&spin_result);
        self.game_history.push(
            GameRecord { bets: record_bets, spin_result: record_result, timestamp: now },
        );
        self.last_result = Some(spin_result);
        self.current_bets = bets;
        proof {
            assert(self@.game_history =~= spec_place_bets(old_view, self@.current_bets, now)
                ->Ok_0.game_history);
            assert(self@ =~= spec_place_bets(old_view, self@.current_bets, now)->Ok_0);
        }
        Ok(())
    }

    /// Clear the current bets and last result, per `spec_reset_round`.
    pub fn reset_round(&mut self) -> (r: Result<(), Error>)
        ensures
            r is Ok,
            final(self)@ == spec_reset_round(old(self)@),
    {
        self.current_bets = Vec::new();
        self.last_result = None;
        proof {
            assert(self@.current_bets =~= Seq::<Bet>::empty());
            assert(self@ =~= spec_reset_round(old(self)@));
        }
        Ok(())
    }
}

/// An element-for-element copy of a batch of bets.
fn copy_bets(v: &Vec<Bet>) -> (r: Vec<Bet>)
    ensures
        r@ == v@,
{
    let mut r: Vec<Bet> = Vec::new();
    let mut k: usize = 0;
    while k < v.len()
        invariant
            k <= v@.len(),
            r@ == v@.take(k as int),
        decreases v@.len() - k,
    {
        r.push(v[k]);
        proof {
            assert(r@ =~= v@.take(k + 1));
        }
        k += 1;
    }
    proof {
        assert(v@.take(v@.len() as int) =~= v@);
    }
    r
}

/// A field-for-field copy of a spin result.
fn copy_spin_result(s: &SpinResult) -> (r: SpinResult)
    ensures
        r@ == s@,
{
    let mut results: Vec<BetResult> = Vec::new();
    let mut k: usize = 0;
    while k < s.bet_results.len()
        invariant
            k <= s.bet_results@.len(),
            results@ == s.bet_results@.take(k as int),
        decreases s.bet_results@.len() - k,
    {
        results.push(s.bet_results[k]);
        proof {
            assert(results@ =~= s.bet_results@.take(k + 1));
        }
        k += 1;
    }
    proof {
        assert(s.bet_results@.take(s.bet_results@.len() as int) =~= s.bet_results@);
    }
    let r = SpinResult {
        winning_number: s.winning_number,
        is_red: s.is_red,
        total_payout: s.total_payout,
        bet_results: results,
    };
    proof {
        assert(r@ =~= s@);
    }
    r
}

} // verus!
