//! The multi-account parlor: every account owner gets their own blackjack
//! table with a private rolling seed derived from the house master seed and
//! their identity, plus an inline roulette wheel and a chip faucet. The
//! blackjack round here keeps the dealer's hole card hidden until the
//! player stands or busts.

use vstd::prelude::*;

use crate::cards::{
    calculate_hand_value, copy_hand, shuffled_deck, spec_deck_cards, spec_determine_winner,
    spec_hand_value_str, Card, CardView, GameResult,
};
use crate::crypto::{hash_bytes, sha256_of};
use crate::engine::spec_shuffled;
use crate::error::Error;
use crate::rng::{next_of, seed_of};

verus! {

/// The phases of one account's blackjack table.
#[derive(Clone, Copy, Debug, PartialEq, Eq, Structural)]
pub enum GamePhase {
    WaitingForBet,
    BettingPhase,
    PlayerTurn,
    DealerTurn,
    RoundComplete,
}

impl Default for GamePhase {
    fn default() -> (r: GamePhase)
        ensures
            r == GamePhase::WaitingForBet,
    {
        GamePhase::WaitingForBet
    }
}

/// The kinds of roulette bet the parlor wheel takes.
#[derive(Clone, Copy, Debug, PartialEq, Eq, Structural)]
pub enum RouletteBetType {
    Number,
    Red,
    Black,
    Even,
    Odd,
    /// 1-18
    Low,
    /// 19-36
    High,
}

/// One roulette bet: its kind, the number for a Number bet, and the stake.
#[derive(Clone, Copy, Debug, PartialEq, Eq, Structural)]
pub struct RouletteBet {
    pub bet_type: RouletteBetType,
    pub number: Option<u8>,
    pub amount: u64,
}

/// An append-only history entry for one roulette spin.
#[derive(Clone, Copy, Debug, PartialEq, Eq, Structural)]
pub struct RouletteRecord {
    pub winning_number: u8,
    pub total_bet: u64,
    pub payout: u64,
    pub timestamp: u64,
}

/// An append-only history entry for one blackjack round.
#[derive(Debug)]
pub struct GameRecord {
    pub player_hand: Vec<Card>,
    pub dealer_hand: Vec<Card>,
    pub bet: u64,
    pub result: GameResult,
    pub payout: u64,
    pub timestamp: u64,
}

#[verifier::ext_equal]
pub struct GameRecordView {
    pub player_hand: Seq<CardView>,
    pub dealer_hand: Seq<CardView>,
    pub bet: u64,
    pub result: GameResult,
    pub payout: u64,
    pub timestamp: u64,
}

impl View for GameRecord {
    type V = GameRecordView;

    open spec fn view(&self) -> GameRecordView {
        GameRecordView {
            player_hand: self.player_hand@.map_values(|c: Card| c@),
            dealer_hand: self.dealer_hand@.map_values(|c: Card| c@),
            bet: self.bet,
            result: self.result,
            payout: self.payout,
            timestamp: self.timestamp,
        }
    }
}

/// The operation surface of the parlor.
#[derive(Clone, Debug)]
pub enum Operation {
    /// Reset the game state to WaitingForBet.
    Reset,
    /// Lock in the bet and start the game (deal cards).
    StartGame { bet: u64 },
    /// Request one additional card for the player.
    Hit,
    /// Stop drawing player cards and let the dealer resolve the round.
    Stand,
    /// Request chips from the faucet.
    RequestChips,
    /// Spin the roulette wheel with a list of bets.
    SpinRoulette { bets: Vec<RouletteBet> },
}

/// One account's table: board, hole card, chips, phase, seed, histories.
#[derive(Debug)]
pub struct PlayerTable {
    pub deck: Vec<Card>,
    pub player_hand: Vec<Card>,
    pub dealer_hand: Vec<Card>,
    pub dealer_hole_card: Option<Card>,
    pub player_balance: u64,
    pub current_bet: u64,
    pub phase: GamePhase,
    pub last_result: Option<GameResult>,
    pub random_seed: u64,
    pub game_history: Vec<GameRecord>,
    pub last_roulette_outcome: Option<u8>,
    pub roulette_history: Vec<RouletteRecord>,
}

#[verifier::ext_equal]
pub struct PlayerTableView {
    pub deck: Seq<CardView>,
    pub player_hand: Seq<CardView>,
    pub dealer_hand: Seq<CardView>,
    pub dealer_hole_card: Option<CardView>,
    pub player_balance: u64,
    pub current_bet: u64,
    pub phase: GamePhase,
    pub last_result: Option<GameResult>,
    pub random_seed: u64,
    pub game_history: Seq<GameRecordView>,
    pub last_roulette_outcome: Option<u8>,
    pub roulette_history: Seq<RouletteRecord>,
}

impl View for PlayerTable {
    type V = PlayerTableView;

    open spec fn view(&self) -> PlayerTableView {
        PlayerTableView {
            deck: self.deck@.map_values(|c: Card| c@),
            player_hand: self.player_hand@.map_values(|c: Card| c@),
            dealer_hand: self.dealer_hand@.map_values(|c: Card| c@),
            dealer_hole_card: match self.dealer_hole_card {
                Some(ref c) => Some(c@),
                None => None,
            },
            player_balance: self.player_balance,
            current_bet: self.current_bet,
            phase: self.phase,
            last_result: self.last_result,
            random_seed: self.random_seed,
            game_history: self.game_history@.map_values(|r: GameRecord| r@),
            last_roulette_outcome: self.last_roulette_outcome,
            roulette_history: self.roulette_history@,
        }
    }
}

/// `a + b` capped at the top of `u64`.
pub open spec fn sat_add_u64(a: u64, b: u64) -> u64 {
    (if a + b > u64::MAX {
        u64::MAX as int
    } else {
        a + b
    }) as u64
}

/// Settling a blackjack round: credit the payout at the table schedule,
/// append the round to the history, clear the bet, and park in
/// RoundComplete.
pub open spec fn spec_apply_result(t: PlayerTableView, result: GameResult, now: u64)
    -> PlayerTableView {
    let payout = crate::blackjack::spec_payout(result, t.current_bet);
    PlayerTableView {
        player_balance: sat_add_u64(t.player_balance, payout),
        current_bet: 0,
        phase: GamePhase::RoundComplete,
        last_result: Some(result),
        game_history: t.game_history.push(
            (GameRecordView {
                player_hand: t.player_hand,
                dealer_hand: t.dealer_hand,
                bet: t.current_bet,
                result: result,
                payout: payout,
                timestamp: now,
            }),
        ),
        ..t
    }
}

/// Moving the hidden hole card into the dealer's visible hand, if one is
/// still hidden.
pub open spec fn spec_reveal_hole(t: PlayerTableView) -> PlayerTableView {
    match t.dealer_hole_card {
        Some(c) => PlayerTableView {
            dealer_hand: t.dealer_hand.push(c),
            dealer_hole_card: None,
            ..t
        },
        None => t,
    }
}

/// What starting a round does: reject a disallowed bet, an active round, or
/// a short balance; otherwise escrow the bet, deal two player cards, one
/// visible dealer card and one hole card, and either settle an instant
/// blackjack (revealing the hole card) or open the player's turn.
pub open spec fn spec_start_game(t: PlayerTableView, bet: u64, now: u64) -> Result<
    PlayerTableView,
    Error,
> {
    if !crate::blackjack::spec_allowed_bet(bet) {
        Err(Error::BetBelowMinimum)
    } else if !(t.phase == GamePhase::WaitingForBet || t.phase == GamePhase::BettingPhase
        || t.phase == GamePhase::RoundComplete) {
        Err(Error::RoundActive)
    } else if t.player_balance < bet {
        Err(Error::InsufficientBalance)
    } else {
        let seed = next_of(seed_of(t.random_seed));
        let d = spec_shuffled(spec_deck_cards(), seed);
        let dealt = PlayerTableView {
            deck: d.take(48),
            player_hand: seq![d[51], d[50]],
            dealer_hand: seq![d[49]],
            dealer_hole_card: Some(d[48]),
            player_balance: (t.player_balance - bet) as u64,
            current_bet: bet,
            last_result: None,
            random_seed: seed,
            ..t
        };
        if spec_hand_value_str(dealt.player_hand) == 21 {
            let revealed = spec_reveal_hole(dealt);
            if spec_hand_value_str(revealed.dealer_hand) == 21 {
                Ok(spec_apply_result(revealed, GameResult::Push, now))
            } else {
                Ok(spec_apply_result(revealed, GameResult::PlayerBlackjack, now))
            }
        } else {
            Ok(PlayerTableView { phase: GamePhase::PlayerTurn, ..dealt })
        }
    }
}

/// What a hit does: draw during the player's turn; on a bust the hole card
/// is revealed and the round settles immediately.
pub open spec fn spec_hit(t: PlayerTableView, now: u64) -> Result<PlayerTableView, Error> {
    if t.phase != GamePhase::PlayerTurn {
        Err(Error::WrongPhase)
    } else if t.deck.len() == 0 {
        Err(Error::DeckExhausted)
    } else {
        let drawn = PlayerTableView {
            player_hand: t.player_hand.push(t.deck.last()),
            deck: t.deck.drop_last(),
            ..t
        };
        if spec_hand_value_str(drawn.player_hand) > 21 {
            Ok(spec_apply_result(spec_reveal_hole(drawn), GameResult::PlayerBust, now))
        } else {
            Ok(drawn)
        }
    }
}

/// What standing does: reveal the hole card, run the dealer to 17, and
/// settle by comparing the final hands.
pub open spec fn spec_stand(t: PlayerTableView, now: u64) -> Result<PlayerTableView, Error> {
    if t.phase != GamePhase::PlayerTurn {
        Err(Error::WrongPhase)
    } else {
        let revealed = spec_reveal_hole(
            (PlayerTableView { phase: GamePhase::DealerTurn, ..t }),
        );
        match crate::blackjack::dealer_run_str(revealed.dealer_hand, revealed.deck) {
            None => Err(Error::DeckExhausted),
            Some(run) => {
                let done = PlayerTableView { dealer_hand: run.0, deck: run.1, ..revealed };
                Ok(spec_apply_result(done, spec_determine_winner(t.player_hand, run.0), now))
            },
        }
    }
}

/// What resetting does: only between rounds; clear the board and the bet.
pub open spec fn spec_reset(t: PlayerTableView) -> Result<PlayerTableView, Error> {
    if !(t.phase == GamePhase::WaitingForBet || t.phase == GamePhase::RoundComplete) {
        Err(Error::RoundActive)
    } else {
        Ok(
            PlayerTableView {
                deck: Seq::empty(),
                player_hand: Seq::empty(),
                dealer_hand: Seq::empty(),
                dealer_hole_card: None,
                current_bet: 0,
                phase: GamePhase::WaitingForBet,
                ..t
            },
        )
    }
}

/// What the faucet does: credit 100 chips (saturating), and lift a table
/// stuck in RoundComplete back to WaitingForBet.
pub open spec fn spec_request_chips(t: PlayerTableView) -> PlayerTableView {
    let funded = PlayerTableView { player_balance: sat_add_u64(t.player_balance, 100), ..t };
    if funded.player_balance > 0 && funded.phase == GamePhase::RoundComplete {
        PlayerTableView { phase: GamePhase::WaitingForBet, ..funded }
    } else {
        funded
    }
}

/// Whether a parlor wheel number (0-36) is black.
pub open spec fn spec_parlor_black(n: u8) -> bool {
    n == 2 || n == 4 || n == 6 || n == 8 || n == 10 || n == 11 || n == 13 || n == 15 || n == 17
        || n == 20 || n == 22 || n == 24 || n == 26 || n == 28 || n == 29 || n == 31 || n == 33
        || n == 35
}

/// Whether one parlor roulette bet wins against winning number `w`.
pub open spec fn spec_parlor_bet_wins(b: RouletteBet, w: u8) -> bool {
    match b.bet_type {
        RouletteBetType::Number => b.number == Some(w),
        RouletteBetType::Red => w != 0 && !spec_parlor_black(w),
        RouletteBetType::Black => spec_parlor_black(w),
        RouletteBetType::Even => w != 0 && w % 2 == 0,
        RouletteBetType::Odd => w != 0 && w % 2 != 0,
        RouletteBetType::Low => 1 <= w <= 18,
        RouletteBetType::High => 19 <= w <= 36,
    }
}

/// What one winning parlor bet pays: 36 times the stake for a Number bet
/// (35 to 1 plus the returned stake), double for everything else.
pub open spec fn spec_parlor_bet_payout(b: RouletteBet, w: u8) -> u64 {
    if spec_parlor_bet_wins(b, w) {
        let m: u64 = if b.bet_type == RouletteBetType::Number {
            36
        } else {
            2
        };
        (if b.amount * m > u64::MAX {
            u64::MAX as int
        } else {
            b.amount * m
        }) as u64
    } else {
        0
    }
}

/// The stakes of a batch of parlor bets summed, saturating.
pub open spec fn spec_parlor_total(bets: Seq<RouletteBet>) -> u64
    decreases bets.len(),
{
    if bets.len() == 0 {
        0
    } else {
        sat_add_u64(spec_parlor_total(bets.drop_last()), bets.last().amount)
    }
}

/// The payouts of a batch of parlor bets against `w` summed, saturating.
pub open spec fn spec_parlor_payout(bets: Seq<RouletteBet>, w: u8) -> u64
    decreases bets.len(),
{
    if bets.len() == 0 {
        0
    } else {
        sat_add_u64(
            spec_parlor_payout(bets.drop_last(), w),
            spec_parlor_bet_payout(bets.last(), w),
        )
    }
}

/// Whether every Number bet in the batch names a number in range.
pub open spec fn spec_parlor_bets_valid(bets: Seq<RouletteBet>) -> bool {
    forall|i: int|
        0 <= i < bets.len() ==> ((#[trigger] bets[i]).bet_type == RouletteBetType::Number ==> (
        bets[i].number is Some && bets[i].number->0 <= 36))
}

/// The winning number a parlor spin from stored seed `cur` produces.
pub open spec fn spec_parlor_spin(cur: u64) -> u8 {
    (next_of(seed_of(next_of(seed_of(cur)))) % 37) as u8
}

/// What spinning the parlor wheel does: reject a malformed Number bet, a
/// zero total, or a short balance; otherwise escrow the stakes, spin, pay
/// each winning bet at its odds, and append the spin to the history.
pub open spec fn spec_spin_roulette(t: PlayerTableView, bets: Seq<RouletteBet>, now: u64)
    -> Result<PlayerTableView, Error> {
    if !spec_parlor_bets_valid(bets) {
        Err(Error::InvalidBet)
    } else if spec_parlor_total(bets) == 0 {
        Err(Error::EmptyBets)
    } else if t.player_balance < spec_parlor_total(bets) {
        Err(Error::InsufficientBalance)
    } else {
        let w = spec_parlor_spin(t.random_seed);
        let payout = spec_parlor_payout(bets, w);
        Ok(
            PlayerTableView {
                player_balance: sat_add_u64(
                    (t.player_balance - spec_parlor_total(bets)) as u64,
                    payout,
                ),
                random_seed: next_of(seed_of(t.random_seed)),
                last_roulette_outcome: Some(w),
                roulette_history: t.roulette_history.push(
                    (RouletteRecord {
                        winning_number: w,
                        total_bet: spec_parlor_total(bets),
                        payout: payout,
                        timestamp: now,
                    }),
                ),
                ..t
            },
        )
    }
}

impl PlayerTable {
    /// A fresh table for a newly seen account: the default buy-in and the
    /// account's derived seed.
    pub fn fresh(buy_in: u64, seed: u64) -> (r: PlayerTable)
        ensures
            r@.player_balance == buy_in,
            r@.random_seed == seed,
            r@.phase == GamePhase::WaitingForBet,
            r@.current_bet == 0,
            r@.deck == Seq::<CardView>::empty(),
            r@.player_hand == Seq::<CardView>::empty(),
            r@.dealer_hand == Seq::<CardView>::empty(),
            r@.dealer_hole_card is None,
            r@.last_result is None,
            r@.game_history == Seq::<GameRecordView>::empty(),
            r@.last_roulette_outcome is None,
            r@.roulette_history == Seq::<RouletteRecord>::empty(),
    {
        let r = PlayerTable {
            deck: Vec::new(),
            player_hand: Vec::new(),
            dealer_hand: Vec::new(),
            dealer_hole_card: None,
            player_balance: buy_in,
            current_bet: 0,
            phase: GamePhase::WaitingForBet,
            last_result: None,
            random_seed: seed,
            game_history: Vec::new(),
            last_roulette_outcome: None,
            roulette_history: Vec::new(),
        };
        proof {
            assert(r@.deck =~= Seq::<CardView>::empty());
            assert(r@.player_hand =~= Seq::<CardView>::empty());
            assert(r@.dealer_hand =~= Seq::<CardView>::empty());
            assert(r@.game_history =~= Seq::<GameRecordView>::empty());
            assert(r@.roulette_history =~= Seq::<RouletteRecord>::empty());
        }
        r
    }

    /// Advance the rolling seed by one xorshift step and return it.
    fn bump_seed(&mut self) -> (r: u64)
        ensures
            r == next_of(seed_of(old(self).random_seed)),
            final(self)@ == (PlayerTableView { random_seed: r, ..old(self)@ }),
    {
        let mut rng = crate::rng::SimpleRng::new(self.random_seed);
        let next = rng.next();
        self.random_seed = next;
        proof {
            assert(self@ =~= (PlayerTableView { random_seed: next, ..old(self)@ }));
        }
        next
    }

    /// Move a hidden hole card into the dealer's hand, per
    /// `spec_reveal_hole`.
    fn reveal_dealer_hole_card(&mut self)
        ensures
            final(self)@ == spec_reveal_hole(old(self)@),
    {
        let hole = self.dealer_hole_card.take();
        match hole {
            Some(card) => {
                self.dealer_hand.push(card);
                self.dealer_hole_card = None;
                proof {
                    assert(self@.dealer_hand =~= old(self)@.dealer_hand.push(
                        old(self)@.dealer_hole_card->0,
                    ));
                    assert(self@ =~= spec_reveal_hole(old(self)@));
                }
            },
            None => {
                self.dealer_hole_card = None;
                proof {
                    assert(self@ =~= spec_reveal_hole(old(self)@));
                }
            },
        }
    }

    /// Settle the round at `result`, per `spec_apply_result`.
    fn apply_result(&mut self, result: GameResult, now: u64)
        ensures
            final(self)@ == spec_apply_result(old(self)@, result, now),
    {
        let bet = self.current_bet;
        let payout = crate::blackjack::payout_for(result, bet);
        let record = GameRecord {
            player_hand: copy_hand(&self.player_hand),
            dealer_hand: copy_hand(&self.dealer_hand),
            bet,
            result,
            payout,
            timestamp: now,
        };
        self.game_history.push(record);
        self.player_balance = self.player_balance.saturating_add(payout);
        self.current_bet = 0;
        self.phase = GamePhase::RoundComplete;
        self.last_result = Some(result);
        proof {
            assert(self@.game_history =~= spec_apply_result(old(self)@, result, now).game_history);
            assert(self@ =~= spec_apply_result(old(self)@, result, now));
        }
    }

    /// Lock the bet and deal with a hidden hole card, per
    /// `spec_start_game`.
    pub fn start_game(&mut self, bet: u64, now: u64) -> (r: Result<(), Error>)
        ensures
            match spec_start_game(old(self)@, bet, now) {
                Ok(v) => r is Ok && final(self)@ == v,
                Err(e) => r == Err::<(), Error>(e) && final(self)@ == old(self)@,
            },
    {
        let allowed = bet >= 1 && bet <= 5;
        if !allowed {
            return Err(Error::BetBelowMinimum);
        }
        let phase_ok = matches!(
            self.phase,
            GamePhase::WaitingForBet | GamePhase::BettingPhase | GamePhase::RoundComplete
        );
        if !phase_ok {
            return Err(Error::RoundActive);
        }
        if self.player_balance < bet {
            return Err(Error::InsufficientBalance);
        }
        let ghost old_view: PlayerTableView = self@;
        let seed = self.bump_seed();
        let mut deck = shuffled_deck(seed);
        let ghost d: Seq<CardView> = spec_shuffled(spec_deck_cards(), seed);
        let p1 = crate::cards::draw_card(&mut deck);
        let p2 = crate::cards::draw_card(&mut deck);
        let up = crate::cards::draw_card(&mut deck);
        let hole = crate::cards::draw_card(&mut deck);
        let mut player_hand: Vec<Card> = Vec::new();
        player_hand.push(p1);
        player_hand.push(p2);
        let mut dealer_hand: Vec<Card> = Vec::new();
        dealer_hand.push(up);
        proof {
            assert(player_hand@.map_values(|c: Card| c@) =~= seq![d[51], d[50]]);
            assert(dealer_hand@.map_values(|c: Card| c@) =~= seq![d[49]]);
            assert(deck@.map_values(|c: Card| c@) =~= d.take(48));
        }
        let player_value = calculate_hand_value(&player_hand);
        self.dealer_hole_card = Some(hole);
        self.dealer_hand = dealer_hand;
        self.player_balance = self.player_balance - bet;
        self.current_bet = bet;
        self.deck = deck;
        self.player_hand = player_hand;
        self.last_result = None;
        if player_value == 21 {
            self.reveal_dealer_hole_card();
            let dealer_value = calculate_hand_value(&self.dealer_hand);
            if dealer_value == 21 {
                self.apply_result(GameResult::Push, now);
            } else {
                self.apply_result(GameResult::PlayerBlackjack, now);
            }
            proof {
                assert(self@ =~= spec_start_game(old_view, bet, now)->Ok_0);
            }
        } else {
            self.phase = GamePhase::PlayerTurn;
            proof {
                assert(self@ =~= spec_start_game(old_view, bet, now)->Ok_0);
            }
        }
        Ok(())
    }

    /// Draw one card for the player, per `spec_hit`.
    pub fn hit(&mut self, now: u64) -> (r: Result<(), Error>)
        ensures
            match spec_hit(old(self)@, now) {
                Ok(v) => r is Ok && final(self)@ == v,
                Err(e) => r == Err::<(), Error>(e) && final(self)@ == old(self)@,
            },
    {
        if !matches!(self.phase, GamePhase::PlayerTurn) {
            return Err(Error::WrongPhase);
        }
        if self.deck.is_empty() {
            return Err(Error::DeckExhausted);
        }
        let ghost old_view: PlayerTableView = self@;
        let card = crate::cards::draw_card(&mut self.deck);
        self.player_hand.push(card);
        proof {
            assert(self@.player_hand =~= old_view.player_hand.push(old_view.deck.last()));
        }
        let value = calculate_hand_value(&self.player_hand);
        if value > 21 {
            self.reveal_dealer_hole_card();
            self.apply_result(GameResult::PlayerBust, now);
            proof {
                assert(self@ =~= spec_hit(old_view, now)->Ok_0);
            }
        } else {
            proof {
                assert(self@ =~= spec_hit(old_view, now)->Ok_0);
            }
        }
        Ok(())
    }

    /// Reveal the hole card, run the dealer to 17, and settle, per
    /// `spec_stand`.
    pub fn stand(&mut self, now: u64) -> (r: Result<(), Error>)
        ensures
            match spec_stand(old(self)@, now) {
                Ok(v) => r is Ok && final(self)@ == v,
                Err(e) => r == Err::<(), Error>(e) && final(self)@ == old(self)@,
            },
    {
        if !matches!(self.phase, GamePhase::PlayerTurn) {
            return Err(Error::WrongPhase);
        }
        let ghost old_view: PlayerTableView = self@;
        let ghost revealed: PlayerTableView = spec_reveal_hole(
            (PlayerTableView { phase: GamePhase::DealerTurn, ..old_view }),
        );
        let mut hand = copy_hand(&self.dealer_hand);
        match &self.dealer_hole_card {
            Some(hole) => {
                hand.push(crate::cards::copy_card(hole));
            },
            None => {},
        }
        let mut deck = copy_hand(&self.deck);
        proof {
            assert(hand@.map_values(|c: Card| c@) =~= revealed.dealer_hand);
            assert(deck@.map_values(|c: Card| c@) =~= revealed.deck);
        }
        let mut value = calculate_hand_value(&hand);
        while value < 17
            invariant
                value == spec_hand_value_str(hand@.map_values(|c: Card| c@)),
                crate::blackjack::dealer_run_str(revealed.dealer_hand, revealed.deck)
                    == crate::blackjack::dealer_run_str(
                    hand@.map_values(|c: Card| c@),
                    deck@.map_values(|c: Card| c@),
                ),
                self@ == old_view,
                revealed == spec_reveal_hole(
                    (PlayerTableView { phase: GamePhase::DealerTurn, ..old_view }),
                ),
                old_view == old(self)@,
                old_view.phase == GamePhase::PlayerTurn,
                revealed.player_hand == old_view.player_hand,
            decreases deck@.len(),
        {
            if deck.is_empty() {
                proof {
                    assert(deck@.map_values(|c: Card| c@).len() == 0);
                }
                return Err(Error::DeckExhausted);
            }
            let ghost pre_hand: Seq<CardView> = hand@.map_values(|c: Card| c@);
            let ghost pre_deck: Seq<CardView> = deck@.map_values(|c: Card| c@);
            let card = crate::cards::draw_card(&mut deck);
            hand.push(card);
            proof {
                assert(hand@.map_values(|c: Card| c@) =~= pre_hand.push(pre_deck.last()));
            }
            value = calculate_hand_value(&hand);
        }
        let ghost run = crate::blackjack::dealer_run_str(revealed.dealer_hand, revealed.deck)->0;
        let result = crate::cards::determine_winner(&self.player_hand, &hand);
        self.phase = GamePhase::DealerTurn;
        self.dealer_hole_card = None;
        self.dealer_hand = hand;
        self.deck = deck;
        proof {
            assert(self@ =~= (PlayerTableView { dealer_hand: run.0, deck: run.1, ..revealed }));
        }
        self.apply_result(result, now);
        proof {
            assert(self@ =~= spec_stand(old_view, now)->Ok_0);
        }
        Ok(())
    }

    /// Clear the table between rounds, per `spec_reset`.
    pub fn reset(&mut self) -> (r: Result<(), Error>)
        ensures
            match spec_reset(old(self)@) {
                Ok(v) => r is Ok && final(self)@ == v,
                Err(e) => r == Err::<(), Error>(e) && final(self)@ == old(self)@,
            },
    {
        let phase_ok = matches!(self.phase, GamePhase::WaitingForBet | GamePhase::RoundComplete);
        if !phase_ok {
            return Err(Error::RoundActive);
        }
        self.deck = Vec::new();
        self.player_hand = Vec::new();
        self.dealer_hand = Vec::new();
        self.dealer_hole_card = None;
        self.current_bet = 0;
        self.phase = GamePhase::WaitingForBet;
        proof {
            assert(self@.deck =~= Seq::<CardView>::empty());
            assert(self@.player_hand =~= Seq::<CardView>::empty());
            assert(self@.dealer_hand =~= Seq::<CardView>::empty());
            assert(self@ =~= spec_reset(old(self)@)->Ok_0);
        }
        Ok(())
    }

    /// Credit 100 chips from the faucet, per `spec_request_chips`.
    pub fn request_chips(&mut self)
        ensures
            final(self)@ == spec_request_chips(old(self)@),
    {
        self.player_balance = self.player_balance.saturating_add(100);
        let unstick = self.player_balance > 0 && matches!(self.phase, GamePhase::RoundComplete);
        if unstick {
            self.phase = GamePhase::WaitingForBet;
        }
        proof {
            assert(self@ =~= spec_request_chips(old(self)@));
        }
    }

    /// Spin the parlor wheel over a batch of bets, per
    /// `spec_spin_roulette`.
    pub fn spin_roulette(&mut self, bets: Vec<RouletteBet>, now: u64) -> (r: Result<(), Error>)
        ensures
            match spec_spin_roulette(old(self)@, bets@, now) {
                Ok(v) => r is Ok && final(self)@ == v,
                Err(e) => r == Err::<(), Error>(e) && final(self)@ == old(self)@,
            },
    {
        let ghost old_view: PlayerTableView = self@;
        let mut total: u64 = 0;
        let mut k: usize = 0;
        while k < bets.len()
            invariant
                k <= bets@.len(),
                self@ == old_view,
                old_view == old(self)@,
                total == spec_parlor_total(bets@.take(k as int)),
                forall|i: int|
                    0 <= i < k ==> ((#[trigger] bets@[i]).bet_type == RouletteBetType::Number ==> (
                    bets@[i].number is Some && bets@[i].number->0 <= 36)),
            decreases bets@.len() - k,
        {
            total = total.saturating_add(bets[k].amount);
            let is_number = matches!(bets[k].bet_type, RouletteBetType::Number);
            if is_number {
                match bets[k].number {
                    Some(n) => {
                        if n > 36 {
                            return Err(Error::InvalidBet);
                        }
                    },
                    None => {
                        return Err(Error::InvalidBet);
                    },
                }
            }
            proof {
                assert(bets@.take(k + 1).drop_last() =~= bets@.take(k as int));
                assert(bets@.take(k + 1).last() == bets@[k as int]);
            }
            k += 1;
        }
        proof {
            assert(bets@.take(bets@.len() as int) =~= bets@);
        }
        if total == 0 {
            return Err(Error::EmptyBets);
        }
        if self.player_balance < total {
            return Err(Error::InsufficientBalance);
        }
        let balance_after = self.player_balance - total;
        let seed = self.bump_seed();
        let mut rng = crate::rng::SimpleRng::new(seed);
        let winning_number: u8 = (rng.next() % 37) as u8;
        let mut total_payout: u64 = 0;
        let mut k2: usize = 0;
        while k2 < bets.len()
            invariant
                k2 <= bets@.len(),
                total_payout == spec_parlor_payout(bets@.take(k2 as int), winning_number),
            decreases bets@.len() - k2,
        {
            let won = parlor_check_win(&bets[k2], winning_number);
            if won {
                let amount = bets[k2].amount;
                let is_number = matches!(bets[k2].bet_type, RouletteBetType::Number);
                let winnings: u64 = if is_number {
                    if amount > u64::MAX / 36 {
                        u64::MAX
                    } else {
                        amount * 36
                    }
                } else {
                    if amount > u64::MAX / 2 {
                        u64::MAX
                    } else {
                        amount * 2
                    }
                };
                total_payout = total_payout.saturating_add(winnings);
            }
            proof {
                assert(bets@.take(k2 + 1).drop_last() =~= bets@.take(k2 as int));
                assert(bets@.take(k2 + 1).last() == bets@[k2 as int]);
            }
            k2 += 1;
        }
        proof {
            assert(bets@.take(bets@.len() as int) =~= bets@);
        }
        self.player_balance = balance_after.saturating_add(total_payout);
        self.last_roulette_outcome = Some(winning_number);
        self.roulette_history.push(
            RouletteRecord { winning_number, total_bet: total, payout: total_payout, timestamp: now },
        );
        proof {
            assert(self@.roulette_history =~= spec_spin_roulette(old_view, bets@, now)
                ->Ok_0.roulette_history);
            assert(self@ =~= spec_spin_roulette(old_view, bets@, now)->Ok_0);
        }
        Ok(())
    }
}

/// Decide one parlor bet against the winning number.
pub fn parlor_check_win(bet: &RouletteBet, winning_number: u8) -> (r: bool)
    ensures
        r == spec_parlor_bet_wins(*bet, winning_number),
{
    match bet.bet_type {
        RouletteBetType::Number => {
            match bet.number {
                Some(n) => n == winning_number,
                None => false,
            }
        },
        RouletteBetType::Red => winning_number != 0 && !parlor_is_black(winning_number),
        RouletteBetType::Black => parlor_is_black(winning_number),
        RouletteBetType::Even => winning_number != 0 && winning_number % 2 == 0,
        RouletteBetType::Odd => winning_number != 0 && winning_number % 2 != 0,
        RouletteBetType::Low => winning_number >= 1 && winning_number <= 18,
        RouletteBetType::High => winning_number >= 19 && winning_number <= 36,
    }
}

/// Whether a parlor wheel number is black.
pub fn parlor_is_black(n: u8) -> (r: bool)
    ensures
        r == spec_parlor_black(n),
{
    n == 2 || n == 4 || n == 6 || n == 8 || n == 10 || n == 11 || n == 13 || n == 15 || n == 17
        || n == 20 || n == 22 || n == 24 || n == 26 || n == 28 || n == 29 || n == 31 || n == 33
        || n == 35
}

/// The seed an account's table starts from: the first eight bytes of the
/// digest of the house master seed and the owner identity, little endian.
pub open spec fn spec_derived_seed(master_seed: u64, owner: u64) -> u64 {
    vstd::bytes::spec_u64_from_le_bytes(
        sha256_of(
            vstd::bytes::spec_u64_to_le_bytes(master_seed) + vstd::bytes::spec_u64_to_le_bytes(
                owner,
            ),
        ).take(8),
    )
}

/// Mix the house master seed with one account identity into that account's
/// private starting seed.
pub fn derived_seed(master_seed: u64, owner: u64) -> (r: u64)
    ensures
        r == spec_derived_seed(master_seed, owner),
{
    let mut buffer: Vec<u8> = vstd::bytes::u64_to_le_bytes(master_seed);
    let owner_bytes = vstd::bytes::u64_to_le_bytes(owner);
    buffer.extend_from_slice(owner_bytes.as_slice());
    proof {
        assert(buffer@ =~= vstd::bytes::spec_u64_to_le_bytes(master_seed)
            + vstd::bytes::spec_u64_to_le_bytes(owner));
    }
    let digest = hash_bytes(&buffer);
    let mut head: Vec<u8> = Vec::new();
    let mut k: usize = 0;
    while k < 8
        invariant
            k <= 8,
            digest@.len() == 32,
            head@ == digest@.take(k as int),
        decreases 8 - k,
    {
        head.push(digest[k]);
        proof {
            assert(head@ =~= digest@.take(k + 1));
        }
        k += 1;
    }
    vstd::bytes::u64_from_le_bytes(head.as_slice())
}

/// The whole parlor: every account's table keyed by owner, the default
/// buy-in, the house master seed, and the deploying account.
#[derive(Debug)]
pub struct Parlor {
    pub players: Vec<(u64, PlayerTable)>,
    pub default_buy_in: u64,
    pub master_seed: u64,
    pub deployer: Option<u64>,
}

#[verifier::ext_equal]
pub struct ParlorView {
    pub players: Seq<(u64, PlayerTableView)>,
    pub default_buy_in: u64,
    pub master_seed: u64,
    pub deployer: Option<u64>,
}

impl View for Parlor {
    type V = ParlorView;

    open spec fn view(&self) -> ParlorView {
        ParlorView {
            players: self.players@.map_values(|e: (u64, PlayerTable)| (e.0, e.1@)),
            default_buy_in: self.default_buy_in,
            master_seed: self.master_seed,
            deployer: self.deployer,
        }
    }
}

/// First account position at or after `k` owned by `owner`, or -1.
pub open spec fn parlor_find_from(players: Seq<(u64, PlayerTableView)>, owner: u64, k: int) -> int
    decreases players.len() - k,
{
    if k < 0 || k >= players.len() {
        -1
    } else if players[k].0 == owner {
        k
    } else {
        parlor_find_from(players, owner, k + 1)
    }
}

/// Account position of `owner`, or -1 if never seen.
pub open spec fn parlor_find(players: Seq<(u64, PlayerTableView)>, owner: u64) -> int {
    parlor_find_from(players, owner, 0)
}

pub proof fn lemma_parlor_find_from(players: Seq<(u64, PlayerTableView)>, owner: u64, k: int)
    requires
        0 <= k <= players.len(),
    ensures
        parlor_find_from(players, owner, k) == -1 ==> forall|i: int|
            k <= i < players.len() ==> players[i].0 != owner,
        parlor_find_from(players, owner, k) != -1 ==> k <= parlor_find_from(players, owner, k)
            < players.len() && players[parlor_find_from(players, owner, k)].0 == owner,
    decreases players.len() - k,
{
    if k < players.len() {
        lemma_parlor_find_from(players, owner, k + 1);
    }
}

impl ParlorView {
    /// Parlor invariant: one table per owner.
    pub open spec fn wf(self) -> bool {
        forall|i: int, j: int|
            0 <= i < j < self.players.len() ==> self.players[i].0 != self.players[j].0
    }
}

/// The table a first-time account starts with: the default buy-in and the
/// seed derived from the master seed and the owner identity.
pub open spec fn spec_fresh_table(buy_in: u64, seed: u64) -> PlayerTableView {
    PlayerTableView {
        deck: Seq::empty(),
        player_hand: Seq::empty(),
        dealer_hand: Seq::empty(),
        dealer_hole_card: None,
        player_balance: buy_in,
        current_bet: 0,
        phase: GamePhase::WaitingForBet,
        last_result: None,
        random_seed: seed,
        game_history: Seq::empty(),
        last_roulette_outcome: None,
        roulette_history: Seq::empty(),
    }
}

/// One operation applied to the owner's table.
pub open spec fn spec_table_step(t: PlayerTableView, op: Operation, now: u64) -> Result<
    PlayerTableView,
    Error,
> {
    match op {
        Operation::Reset => spec_reset(t),
        Operation::StartGame { bet } => spec_start_game(t, bet, now),
        Operation::Hit => spec_hit(t, now),
        Operation::Stand => spec_stand(t, now),
        Operation::RequestChips => Ok(spec_request_chips(t)),
        Operation::SpinRoulette { bets } => spec_spin_roulette(t, bets@, now),
    }
}

/// What one parlor operation does: look the owner's table up, creating a
/// fresh one with the derived seed on first contact, apply the operation,
/// and keep everything untouched when the operation fails.
pub open spec fn spec_parlor_execute(p: ParlorView, owner: u64, op: Operation, now: u64) -> Result<
    ParlorView,
    Error,
> {
    let i = parlor_find(p.players, owner);
    let t = if i == -1 {
        spec_fresh_table(p.default_buy_in, spec_derived_seed(p.master_seed, owner))
    } else {
        p.players[i].1
    };
    match spec_table_step(t, op, now) {
        Err(e) => Err(e),
        Ok(t2) => Ok(
            ParlorView {
                players: if i == -1 {
                    p.players.push((owner, t2))
                } else {
                    p.players.update(i, (owner, t2))
                },
                ..p
            },
        ),
    }
}

impl Parlor {
    /// Set up the parlor at instantiation: buy-in, master seed (remapped
    /// away from zero), and the deploying signer.
    pub fn instantiate(starting_balance: u64, random_seed: u64, signer: u64) -> (r: Parlor)
        ensures
            r@.default_buy_in == starting_balance,
            r@.master_seed == seed_of(random_seed),
            r@.deployer == Some(signer),
            r@.players == Seq::<(u64, PlayerTableView)>::empty(),
            r@.wf(),
    {
        let master_seed = if random_seed == 0 {
            crate::rng::SEED_FALLBACK
        } else {
            random_seed
        };
        let r = Parlor {
            players: Vec::new(),
            default_buy_in: starting_balance,
            master_seed,
            deployer: Some(signer),
        };
        proof {
            assert(r@.players =~= Seq::<(u64, PlayerTableView)>::empty());
        }
        r
    }

    /// Account position of `owner`, if any.
    fn find_index(&self, owner: u64) -> (r: Option<usize>)
        ensures
            match r {
                Some(i) => i < self.players@.len() && parlor_find(self@.players, owner) == i as int,
                None => parlor_find(self@.players, owner) == -1,
            },
    {
        let mut k: usize = 0;
        while k < self.players.len()
            invariant
                k <= self.players@.len(),
                parlor_find_from(self@.players, owner, 0) == parlor_find_from(
                    self@.players,
                    owner,
                    k as int,
                ),
            decreases self.players@.len() - k,
        {
            if self.players[k].0 == owner {
                return Some(k);
            }
            k += 1;
        }
        None
    }

    /// Apply one operation for `owner` at time `now`, per
    /// `spec_parlor_execute`: first contact opens a fresh table under the
    /// owner's derived seed, and a failed operation leaves the whole parlor
    /// untouched.
    pub fn execute(&mut self, owner: u64, op: Operation, now: u64) -> (r: Result<(), Error>)
        requires
            old(self)@.wf(),
        ensures
            match spec_parlor_execute(old(self)@, owner, op, now) {
                Ok(v) => r is Ok && final(self)@ == v,
                Err(e) => r == Err::<(), Error>(e) && final(self)@ == old(self)@,
            },
            final(self)@.wf(),
    {
        let ghost old_view: ParlorView = self@;
        let found = self.find_index(owner);
        proof {
            lemma_parlor_find_from(old_view.players, owner, 0);
        }
        match found {
            Some(i) => {
                proof {
                    assert(old_view.players[i as int] == (
                        self.players@[i as int].0,
                        self.players@[i as int].1@,
                    ));
                }
                let entry = &mut self.players[i];
                let outcome = table_step(&mut entry.1, op, now);
                proof {
                    assert(self@.players =~= old_view.players.update(
                        i as int,
                        (owner, self.players@[i as int].1@),
                    ));
                }
                match outcome {
                    Ok(_) => {
                        proof {
                            assert(self@ =~= spec_parlor_execute(old_view, owner, op, now)->Ok_0);
                        }
                        Ok(())
                    },
                    Err(e) => {
                        proof {
                            assert(self@.players =~= old_view.players);
                            assert(self@ =~= old_view);
                        }
                        Err(e)
                    },
                }
            },
            None => {
                let seed = derived_seed(self.master_seed, owner);
                let mut fresh = PlayerTable::fresh(self.default_buy_in, seed);
                proof {
                    assert(fresh@ =~= spec_fresh_table(
                        old_view.default_buy_in,
                        spec_derived_seed(old_view.master_seed, owner),
                    ));
                }
                let outcome = table_step(&mut fresh, op, now);
                match outcome {
                    Ok(_) => {
                        self.players.push((owner, fresh));
                        proof {
                            assert(self@.players =~= old_view.players.push(
                                (owner, self.players@[old_view.players.len() as int].1@),
                            ));
                            assert(self@ =~= spec_parlor_execute(old_view, owner, op, now)->Ok_0);
                        }
                        Ok(())
                    },
                    Err(e) => Err(e),
                }
            },
        }
    }
}

/// Apply one operation to one table, per `spec_table_step`.
fn table_step(table: &mut PlayerTable, op: Operation, now: u64) -> (r: Result<(), Error>)
    ensures
        match spec_table_step(old(table)@, op, now) {
            Ok(v) => r is Ok && final(table)@ == v,
            Err(e) => r == Err::<(), Error>(e) && final(table)@ == old(table)@,
        },
{
    match op {
        Operation::Reset => table.reset(),
        Operation::StartGame { bet } => table.start_game(bet, now),
        Operation::Hit => table.hit(now),
        Operation::Stand => table.stand(now),
        Operation::RequestChips => {
            table.request_chips();
            Ok(())
        },
        Operation::SpinRoulette { bets } => table.spin_roulette(bets, now),
    }
}


} // verus!
