//! A single-player blackjack table with one balance and one seeded deck per
//! round: lock an allowed bet, deal two cards each, let the player hit or
//! stand, run the dealer to 17, and settle the bet at the table's fixed
//! payout schedule. Every transition is stated exactly over the table's
//! mathematical view, so the same seed always produces the same round.

use vstd::prelude::*;

use crate::cards::{
    calculate_hand_value, shuffled_deck, spec_deck_cards, spec_determine_winner,
    spec_hand_value_str, Card, CardView, GameResult,
};
use crate::engine::spec_shuffled;
use crate::error::Error;
use crate::rng::{next_of, seed_of};

verus! {

/// Starting configuration: the balance credited at instantiation and the
/// seed that makes every shuffle reproducible.
#[derive(Clone, Copy, Debug)]
pub struct BlackjackInit {
    pub starting_balance: u64,
    pub random_seed: u64,
}

/// The operation surface of the single-player table.
#[derive(Clone, Copy, Debug)]
pub enum Operation {
    /// Begin a new round by selecting a bet and dealing cards.
    StartRound { bet: u64 },
    /// Request one additional card for the player.
    Hit,
    /// Stop drawing player cards and let the dealer resolve the round.
    Stand,
    /// Clear the table once the round is over.
    ResetRound,
}

#[derive(Clone, Copy, Debug, PartialEq, Eq, Structural)]
pub enum GamePhase {
    WaitingForBet,
    PlayerTurn,
    DealerTurn,
    RoundComplete,
}

impl Default for GamePhase {
    fn default() -> (r: GamePhase)
        ensures
            r == GamePhase::WaitingForBet,
    {
        GamePhase::WaitingForBet
    }
}

/// Whether `bet` is one of the allowed table stakes (1 through 5).
pub open spec fn spec_allowed_bet(bet: u64) -> bool {
    1 <= bet <= 5
}

/// The payout credited back for a settled round: blackjack pays five halves
/// of the bet, a win pays double, a push returns the bet, a loss nothing.
/// Multiplications saturate so no adversarial bet can overflow a balance.
pub open spec fn spec_payout(result: GameResult, bet: u64) -> u64 {
    match result {
        GameResult::PlayerBlackjack => ((if 5 * bet > u64::MAX {
            u64::MAX as int
        } else {
            5 * bet
        }) / 2) as u64,
        GameResult::PlayerWin | GameResult::DealerBust => (if 2 * bet > u64::MAX {
            u64::MAX as int
        } else {
            2 * bet
        }) as u64,
        GameResult::Push => bet,
        GameResult::DealerWin | GameResult::PlayerBust => 0,
    }
}

/// `a + b` capped at the top of `u64`.
pub open spec fn sat_add_u64(a: u64, b: u64) -> u64 {
    (if a + b > u64::MAX {
        u64::MAX as int
    } else {
        a + b
    }) as u64
}

/// The single-player table: deck, the two hands, chips, bet, phase, and the
/// rolling seed that the next shuffle will be drawn from.
#[derive(Debug)]
pub struct BlackjackTable {
    pub deck: Vec<Card>,
    pub player_hand: Vec<Card>,
    pub dealer_hand: Vec<Card>,
    pub player_balance: u64,
    pub current_bet: u64,
    pub phase: GamePhase,
    pub last_result: Option<GameResult>,
    pub default_buy_in: u64,
    pub random_seed: u64,
}

#[verifier::ext_equal]
pub struct BlackjackTableView {
    pub deck: Seq<CardView>,
    pub player_hand: Seq<CardView>,
    pub dealer_hand: Seq<CardView>,
    pub player_balance: u64,
    pub current_bet: u64,
    pub phase: GamePhase,
    pub last_result: Option<GameResult>,
    pub default_buy_in: u64,
    pub random_seed: u64,
}

impl View for BlackjackTable {
    type V = BlackjackTableView;

    open spec fn view(&self) -> BlackjackTableView {
        BlackjackTableView {
            deck: self.deck@.map_values(|c: Card| c@),
            player_hand: self.player_hand@.map_values(|c: Card| c@),
            dealer_hand: self.dealer_hand@.map_values(|c: Card| c@),
            player_balance: self.player_balance,
            current_bet: self.current_bet,
            phase: self.phase,
            last_result: self.last_result,
            default_buy_in: self.default_buy_in,
            random_seed: self.random_seed,
        }
    }
}

/// The table as instantiation leaves it: full buy-in, empty board, and the
/// seed remapped away from zero.
pub open spec fn spec_instantiate(init: BlackjackInit) -> BlackjackTableView {
    BlackjackTableView {
        deck: Seq::empty(),
        player_hand: Seq::empty(),
        dealer_hand: Seq::empty(),
        player_balance: init.starting_balance,
        current_bet: 0,
        phase: GamePhase::WaitingForBet,
        last_result: None,
        default_buy_in: init.starting_balance,
        random_seed: seed_of(init.random_seed),
    }
}

/// Settling a round: credit the payout (saturating), clear the bet, record
/// the result, and park in RoundComplete.
pub open spec fn spec_apply_result(t: BlackjackTableView, result: GameResult)
    -> BlackjackTableView {
    BlackjackTableView {
        player_balance: sat_add_u64(t.player_balance, spec_payout(result, t.current_bet)),
        current_bet: 0,
        phase: GamePhase::RoundComplete,
        last_result: Some(result),
        ..t
    }
}

/// What starting a round does: reject a disallowed bet, a round already in
/// progress, or a short balance; otherwise escrow the bet, advance the
/// rolling seed, deal two cards each from the freshly shuffled deck, and
/// either settle an instant blackjack on the spot or open the player's turn.
pub open spec fn spec_start_game(t: BlackjackTableView, bet: u64) -> Result<
    BlackjackTableView,
    Error,
> {
    if !spec_allowed_bet(bet) {
        Err(Error::BetBelowMinimum)
    } else if !(t.phase == GamePhase::WaitingForBet || t.phase == GamePhase::RoundComplete) {
        Err(Error::RoundActive)
    } else if t.player_balance < bet {
        Err(Error::InsufficientBalance)
    } else {
        let seed = next_of(seed_of(t.random_seed));
        let d = spec_shuffled(spec_deck_cards(), seed);
        let player_hand = seq![d[51], d[50]];
        let dealer_hand = seq![d[49], d[48]];
        let dealt = BlackjackTableView {
            deck: d.take(48),
            player_hand: player_hand,
            dealer_hand: dealer_hand,
            player_balance: (t.player_balance - bet) as u64,
            current_bet: bet,
            last_result: None,
            random_seed: seed,
            ..t
        };
        if spec_hand_value_str(player_hand) == 21 {
            if spec_hand_value_str(dealer_hand) == 21 {
                Ok(spec_apply_result(dealt, GameResult::Push))
            } else {
                Ok(spec_apply_result(dealt, GameResult::PlayerBlackjack))
            }
        } else {
            Ok(BlackjackTableView { phase: GamePhase::PlayerTurn, ..dealt })
        }
    }
}

/// What a hit does: only during the player's turn and only while the deck
/// holds a card; draw it, and settle as a bust the moment the hand exceeds
/// 21.
pub open spec fn spec_hit(t: BlackjackTableView) -> Result<BlackjackTableView, Error> {
    if t.phase != GamePhase::PlayerTurn {
        Err(Error::WrongPhase)
    } else if t.deck.len() == 0 {
        Err(Error::DeckExhausted)
    } else {
        let hand = t.player_hand.push(t.deck.last());
        let drawn = BlackjackTableView { player_hand: hand, deck: t.deck.drop_last(), ..t };
        if spec_hand_value_str(hand) > 21 {
            Ok(spec_apply_result(drawn, GameResult::PlayerBust))
        } else {
            Ok(drawn)
        }
    }
}

/// The dealer's mandatory draws: keep taking the next card while the hand is
/// worth less than 17; `None` means the deck ran out first.
pub open spec fn dealer_run_str(hand: Seq<CardView>, deck: Seq<CardView>) -> Option<
    (Seq<CardView>, Seq<CardView>),
> {
    dealer_run_str_rec(hand, deck)
}

pub open spec fn dealer_run_str_rec(hand: Seq<CardView>, deck: Seq<CardView>) -> Option<
    (Seq<CardView>, Seq<CardView>),
>
    decreases deck.len(),
{
    if spec_hand_value_str(hand) >= 17 {
        Some((hand, deck))
    } else if deck.len() == 0 {
        None
    } else {
        dealer_run_str_rec(hand.push(deck.last()), deck.drop_last())
    }
}

/// What standing does: only during the player's turn; the dealer draws to
/// 17, the verdict is taken from the two final hands, and the bet settles.
pub open spec fn spec_stand(t: BlackjackTableView) -> Result<BlackjackTableView, Error> {
    if t.phase != GamePhase::PlayerTurn {
        Err(Error::WrongPhase)
    } else {
        match dealer_run_str(t.dealer_hand, t.deck) {
            None => Err(Error::DeckExhausted),
            Some(run) => {
                let done = BlackjackTableView { dealer_hand: run.0, deck: run.1, ..t };
                Ok(spec_apply_result(done, spec_determine_winner(t.player_hand, run.0)))
            },
        }
    }
}

/// What resetting does: only between rounds; clear the board and the bet,
/// keep balance, seed, and the last result.
pub open spec fn spec_reset(t: BlackjackTableView) -> Result<BlackjackTableView, Error> {
    if !(t.phase == GamePhase::WaitingForBet || t.phase == GamePhase::RoundComplete) {
        Err(Error::RoundActive)
    } else {
        Ok(
            BlackjackTableView {
                deck: Seq::empty(),
                player_hand: Seq::empty(),
                dealer_hand: Seq::empty(),
                current_bet: 0,
                phase: GamePhase::WaitingForBet,
                ..t
            },
        )
    }
}

impl BlackjackTable {
    /// Set up the table from its instantiation argument.
    pub fn instantiate(init: BlackjackInit) -> (r: BlackjackTable)
        ensures
            r@ == spec_instantiate(init),
    {
        let random_seed = if init.random_seed == 0 {
            crate::rng::SEED_FALLBACK
        } else {
            init.random_seed
        };
        let r = BlackjackTable {
            deck: Vec::new(),
            player_hand: Vec::new(),
            dealer_hand: Vec::new(),
            player_balance: init.starting_balance,
            current_bet: 0,
            phase: GamePhase::WaitingForBet,
            last_result: None,
            default_buy_in: init.starting_balance,
            random_seed,
        };
        proof {
            assert(r@ =~= spec_instantiate(init));
        }
        r
    }

    /// Advance the rolling seed by one xorshift step and return it.
    fn bump_seed(&mut self) -> (r: u64)
        ensures
            r == next_of(seed_of(old(self).random_seed)),
            final(self).random_seed == r,
            final(self).deck == old(self).deck,
            final(self).player_hand == old(self).player_hand,
            final(self).dealer_hand == old(self).dealer_hand,
            final(self).player_balance == old(self).player_balance,
            final(self).current_bet == old(self).current_bet,
            final(self).phase == old(self).phase,
            final(self).last_result == old(self).last_result,
            final(self).default_buy_in == old(self).default_buy_in,
    {
        let mut rng = crate::rng::SimpleRng::new(self.random_seed);
        let next = rng.next();
        self.random_seed = next;
        next
    }

    /// Settle the round at `result`, per `spec_apply_result`.
    fn apply_result(&mut self, result: GameResult)
        ensures
            final(self)@ == spec_apply_result(old(self)@, result),
    {
        let bet = self.current_bet;
        let payout = payout_for(result, bet);
        self.player_balance = self.player_balance.saturating_add(payout);
        self.current_bet = 0;
        self.phase = GamePhase::RoundComplete;
        self.last_result = Some(result);
        proof {
            assert(self@ =~= spec_apply_result(old(self)@, result));
        }
    }

    /// Lock the bet and deal, per `spec_start_game`.
    pub fn start_game(&mut self, bet: u64) -> (r: Result<(), Error>)
        ensures
            match spec_start_game(old(self)@, bet) {
                Ok(v) => r is Ok && final(self)@ == v,
                Err(e) => r == Err::<(), Error>(e) && final(self)@ == old(self)@,
            },
    {
        let allowed = bet >= 1 && bet <= 5;
        if !allowed {
            return Err(Error::BetBelowMinimum);
        }
        let phase_ok = matches!(self.phase, GamePhase::WaitingForBet | GamePhase::RoundComplete);
        if !phase_ok {
            return Err(Error::RoundActive);
        }
        if self.player_balance < bet {
            return Err(Error::InsufficientBalance);
        }
        let ghost old_view: BlackjackTableView = self@;
        let seed = self.bump_seed();
        let mut deck = shuffled_deck(seed);
        let ghost d: Seq<CardView> = spec_shuffled(spec_deck_cards(), seed);
        let p1 = crate::cards::draw_card(&mut deck);
        let p2 = crate::cards::draw_card(&mut deck);
        let d1 = crate::cards::draw_card(&mut deck);
        let d2 = crate::cards::draw_card(&mut deck);
        let mut player_hand: Vec<Card> = Vec::new();
        player_hand.push(p1);
        player_hand.push(p2);
        let mut dealer_hand: Vec<Card> = Vec::new();
        dealer_hand.push(d1);
        dealer_hand.push(d2);
        proof {
            assert(player_hand@.map_values(|c: Card| c@) =~= seq![d[51], d[50]]);
            assert(dealer_hand@.map_values(|c: Card| c@) =~= seq![d[49], d[48]]);
            assert(deck@.map_values(|c: Card| c@) =~= d.take(48));
        }
        let player_value = calculate_hand_value(&player_hand);
        let dealer_value = calculate_hand_value(&dealer_hand);
        self.player_balance = self.player_balance - bet;
        self.current_bet = bet;
        self.deck = deck;
        self.player_hand = player_hand;
        self.dealer_hand = dealer_hand;
        self.last_result = None;
        if player_value == 21 {
            if dealer_value == 21 {
                self.apply_result(GameResult::Push);
            } else {
                self.apply_result(GameResult::PlayerBlackjack);
            }
            proof {
                assert(self@ =~= spec_start_game(old_view, bet)->Ok_0);
            }
        } else {
            self.phase = GamePhase::PlayerTurn;
            proof {
                assert(self@ =~= spec_start_game(old_view, bet)->Ok_0);
            }
        }
        Ok(())
    }

    /// Draw one card for the player, per `spec_hit`.
    pub fn hit(&mut self) -> (r: Result<(), Error>)
        ensures
            match spec_hit(old(self)@) {
                Ok(v) => r is Ok && final(self)@ == v,
                Err(e) => r == Err::<(), Error>(e) && final(self)@ == old(self)@,
            },
    {
        if !matches!(self.phase, GamePhase::PlayerTurn) {
            return Err(Error::WrongPhase);
        }
        if self.deck.is_empty() {
            return Err(Error::DeckExhausted);
        }
        let ghost old_view: BlackjackTableView = self@;
        let card = crate::cards::draw_card(&mut self.deck);
        self.player_hand.push(card);
        proof {
            assert(self@.player_hand =~= old_view.player_hand.push(old_view.deck.last()));
        }
        let value = calculate_hand_value(&self.player_hand);
        if value > 21 {
            self.apply_result(GameResult::PlayerBust);
            proof {
                assert(self@ =~= spec_hit(old_view)->Ok_0);
            }
        } else {
            proof {
                assert(self@ =~= spec_hit(old_view)->Ok_0);
            }
        }
        Ok(())
    }

    /// Let the dealer draw to 17 and settle, per `spec_stand`.
    pub fn stand(&mut self) -> (r: Result<(), Error>)
        ensures
            match spec_stand(old(self)@) {
                Ok(v) => r is Ok && final(self)@ == v,
                Err(e) => r == Err::<(), Error>(e) && final(self)@ == old(self)@,
            },
    {
        if !matches!(self.phase, GamePhase::PlayerTurn) {
            return Err(Error::WrongPhase);
        }
        let ghost old_view: BlackjackTableView = self@;
        let mut hand = crate::cards::copy_hand(&self.dealer_hand);
        let mut deck = crate::cards::copy_hand(&self.deck);
        let mut value = calculate_hand_value(&hand);
        while value < 17
            invariant
                value == spec_hand_value_str(hand@.map_values(|c: Card| c@)),
                dealer_run_str(old_view.dealer_hand, old_view.deck) == dealer_run_str(
                    hand@.map_values(|c: Card| c@),
                    deck@.map_values(|c: Card| c@),
                ),
                self@ == old_view,
                old_view.phase == GamePhase::PlayerTurn,
            decreases deck@.len(),
        {
            if deck.is_empty() {
                proof {
                    assert(deck@.map_values(|c: Card| c@).len() == 0);
                }
                return Err(Error::DeckExhausted);
            }
            let ghost pre_hand: Seq<CardView> = hand@.map_values(|c: Card| c@);
            let ghost pre_deck: Seq<CardView> = deck@.map_values(|c: Card| c@);
            let card = crate::cards::draw_card(&mut deck);
            hand.push(card);
            proof {
                assert(hand@.map_values(|c: Card| c@) =~= pre_hand.push(pre_deck.last()));
            }
            value = calculate_hand_value(&hand);
        }
        let ghost run = dealer_run_str(old_view.dealer_hand, old_view.deck)->0;
        let result = crate::cards::determine_winner(&self.player_hand, &hand);
        self.dealer_hand = hand;
        self.deck = deck;
        proof {
            assert(self@ =~= (BlackjackTableView { dealer_hand: run.0, deck: run.1, ..old_view }));
        }
        self.apply_result(result);
        proof {
            assert(self@ =~= spec_stand(old_view)->Ok_0);
        }
        Ok(())
    }

    /// Clear the table between rounds, per `spec_reset`.
    pub fn reset_round(&mut self) -> (r: Result<(), Error>)
        ensures
            match spec_reset(old(self)@) {
                Ok(v) => r is Ok && final(self)@ == v,
                Err(e) => r == Err::<(), Error>(e) && final(self)@ == old(self)@,
            },
    {
        let phase_ok = matches!(self.phase, GamePhase::WaitingForBet | GamePhase::RoundComplete);
        if !phase_ok {
            return Err(Error::RoundActive);
        }
        self.deck = Vec::new();
        self.player_hand = Vec::new();
        self.dealer_hand = Vec::new();
        self.current_bet = 0;
        self.phase = GamePhase::WaitingForBet;
        proof {
            assert(self@.deck =~= Seq::<CardView>::empty());
            assert(self@.player_hand =~= Seq::<CardView>::empty());
            assert(self@.dealer_hand =~= Seq::<CardView>::empty());
            assert(self@ =~= spec_reset(old(self)@)->Ok_0);
        }
        Ok(())
    }

    /// Apply one operation, dispatching to the matching transition.
    pub fn execute(&mut self, op: Operation) -> (r: Result<(), Error>)
        ensures
            match op {
                Operation::StartRound { bet } => match spec_start_game(old(self)@, bet) {
                    Ok(v) => r is Ok && final(self)@ == v,
                    Err(e) => r == Err::<(), Error>(e) && final(self)@ == old(self)@,
                },
                Operation::Hit => match spec_hit(old(self)@) {
                    Ok(v) => r is Ok && final(self)@ == v,
                    Err(e) => r == Err::<(), Error>(e) && final(self)@ == old(self)@,
                },
                Operation::Stand => match spec_stand(old(self)@) {
                    Ok(v) => r is Ok && final(self)@ == v,
                    Err(e) => r == Err::<(), Error>(e) && final(self)@ == old(self)@,
                },
                Operation::ResetRound => match spec_reset(old(self)@) {
                    Ok(v) => r is Ok && final(self)@ == v,
                    Err(e) => r == Err::<(), Error>(e) && final(self)@ == old(self)@,
                },
            },
    {
        match op {
            Operation::StartRound { bet } => self.start_game(bet),
            Operation::Hit => self.hit(),
            Operation::Stand => self.stand(),
            Operation::ResetRound => self.reset_round(),
        }
    }
}

/// Over one settled round the player's balance moves by exactly the payout:
/// with the bet already escrowed at the deal, the round's net change is the
/// payout less the bet, a pure function of the verdict and the stake. The
/// house-side half of this account, that the bank's ledger moves by the
/// opposite amount, is `crate::settle::lemma_conservation`.
pub proof fn lemma_apply_result_net(t: BlackjackTableView, result: GameResult)
    requires
        t.player_balance + spec_payout(result, t.current_bet) <= u64::MAX,
    ensures
        spec_apply_result(t, result).player_balance == t.player_balance + spec_payout(
            result,
            t.current_bet,
        ),
        spec_apply_result(t, result).current_bet == 0,
        spec_apply_result(t, result).last_result == Some(result),
{
}

/// The payout credited back for a settled round, per `spec_payout`.
pub fn payout_for(result: GameResult, bet: u64) -> (r: u64)
    ensures
        r == spec_payout(result, bet),
{
    match result {
        GameResult::PlayerBlackjack => {
            let m = if bet > u64::MAX / 5 {
                u64::MAX
            } else {
                bet * 5
            };
            m / 2
        },
        GameResult::PlayerWin | GameResult::DealerBust => {
            if bet > u64::MAX / 2 {
                u64::MAX
            } else {
                bet * 2
            }
        },
        GameResult::Push => bet,
        GameResult::DealerWin | GameResult::PlayerBust => 0,
    }
}

} // verus!
