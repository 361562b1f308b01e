//! The escrow and replay-verified settlement protocol between the bank and
//! its players. The player escrows the bet and plays locally against a seed
//! the bank issued; the bank then deterministically replays the reported
//! action log from the same seed and pays out only what its own replay
//! says, never what the player claims. A pending game is removed exactly
//! once, at settlement, which is what makes a second report for the same
//! game id fail closed.
//!
//! Blackjack needs the two-round request/report shape because the player
//! makes sequential decisions; roulette and baccarat have none, so the bank
//! settles those in the same turn as the request. The asymmetry is
//! deliberate: it saves the games without choices a round trip.

use vstd::prelude::*;

use crate::cards::GameResult;
use crate::crypto::{hash_bytes, sha256_of};
use crate::engine::{
    spec_deck, spec_hand_value, spec_hand_value_baccarat, spec_shuffled, Card,
};
use crate::error::Error;
use crate::rng::{next_of, seed_of};
use crate::table::PlayerActionKind;

verus! {

/// The games the settlement path serves.
#[derive(Clone, Copy, Debug, PartialEq, Eq, Structural)]
pub enum GameType {
    Blackjack,
    Roulette,
    Baccarat,
}

/// Where a replayed blackjack round stands.
#[derive(Clone, Copy, Debug, PartialEq, Eq, Structural)]
pub enum RoundStatus {
    /// The player may still act.
    Playing,
    /// The player stood (or doubled down); the dealer resolves next.
    Stood,
    /// The player went over 21.
    Busted,
    /// The opening hand was a natural 21; no actions are legal.
    Natural,
}

/// One bank-side escrow entry, keyed by game id and removed exactly once at
/// settlement.
#[derive(Clone, Copy, Debug, PartialEq, Eq, Structural)]
pub struct PendingGame {
    pub player: u64,
    pub player_chain: u64,
    pub game_type: GameType,
    pub bet: u64,
    pub seed: u64,
    pub created_at: u64,
}

/// The bank's authoritative verdict on one round.
#[derive(Debug)]
pub struct Settlement {
    pub result: GameResult,
    pub payout: u64,
    pub dealer_hand: Vec<Card>,
}

#[verifier::ext_equal]
pub struct SettlementView {
    pub result: GameResult,
    pub payout: u64,
    pub dealer_hand: Seq<Card>,
}

impl View for Settlement {
    type V = SettlementView;

    open spec fn view(&self) -> SettlementView {
        SettlementView {
            result: self.result,
            payout: self.payout,
            dealer_hand: self.dealer_hand@,
        }
    }
}

/// The state of a blackjack round as replay folds over the action log.
#[verifier::ext_equal]
pub struct BjRound {
    pub player_hand: Seq<Card>,
    pub dealer_hand: Seq<Card>,
    pub deck: Seq<Card>,
    pub bet: u64,
    pub status: RoundStatus,
}

/// The per-round seed the bank derives: the first eight bytes of the digest
/// of (master seed, game id, player identity, wall clock), little endian.
pub open spec fn spec_round_seed(master_seed: u64, game_id: u64, player: u64, now: u64) -> u64 {
    vstd::bytes::spec_u64_from_le_bytes(
        sha256_of(
            vstd::bytes::spec_u64_to_le_bytes(master_seed) + vstd::bytes::spec_u64_to_le_bytes(
                game_id,
            ) + vstd::bytes::spec_u64_to_le_bytes(player) + vstd::bytes::spec_u64_to_le_bytes(now),
        ).take(8),
    )
}

/// Derive the per-round seed.
pub fn round_seed(master_seed: u64, game_id: u64, player: u64, now: u64) -> (r: u64)
    ensures
        r == spec_round_seed(master_seed, game_id, player, now),
{
    let mut buffer: Vec<u8> = vstd::bytes::u64_to_le_bytes(master_seed);
    let id_bytes = vstd::bytes::u64_to_le_bytes(game_id);
    buffer.extend_from_slice(id_bytes.as_slice());
    let player_bytes = vstd::bytes::u64_to_le_bytes(player);
    buffer.extend_from_slice(player_bytes.as_slice());
    let now_bytes = vstd::bytes::u64_to_le_bytes(now);
    buffer.extend_from_slice(now_bytes.as_slice());
    proof {
        assert(buffer@ =~= vstd::bytes::spec_u64_to_le_bytes(master_seed)
            + vstd::bytes::spec_u64_to_le_bytes(game_id) + vstd::bytes::spec_u64_to_le_bytes(
            player,
        ) + vstd::bytes::spec_u64_to_le_bytes(now));
    }
    let digest = hash_bytes(&buffer);
    let mut head: Vec<u8> = Vec::new();
    let mut k: usize = 0;
    while k < 8
        invariant
            k <= 8,
            digest@.len() == 32,
            head@ == digest@.take(k as int),
        decreases 8 - k,
    {
        head.push(digest[k]);
        proof {
            assert(head@ =~= digest@.take(k + 1));
        }
        k += 1;
    }
    vstd::bytes::u64_from_le_bytes(head.as_slice())
}

/// The opening state of a blackjack round: the single deck shuffled from
/// the seed, two cards to the player, two to the dealer (one of them the
/// hole card), and Natural status on an opening 21.
pub open spec fn spec_bj_deal(seed: u64, bet: u64) -> BjRound {
    let d = spec_shuffled(spec_deck(1), seed);
    let player_hand = seq![d[51], d[50]];
    BjRound {
        player_hand: player_hand,
        dealer_hand: seq![d[49], d[48]],
        deck: d.take(48),
        bet: bet,
        status: if spec_hand_value(player_hand) == 21 {
            RoundStatus::Natural
        } else {
            RoundStatus::Playing
        },
    }
}

/// One logged action applied to the round: Hit draws and busts past 21;
/// Stand ends the turn; DoubleDown is only legal on the two-card hand,
/// doubles the bet (saturating), draws exactly one card, and ends the turn.
/// Any action after the turn ended makes the log invalid.
pub open spec fn spec_bj_step(r: BjRound, action: PlayerActionKind) -> Result<BjRound, Error> {
    if r.status != RoundStatus::Playing {
        Err(Error::InvalidActionLog)
    } else {
        match action {
            PlayerActionKind::Hit => {
                if r.deck.len() == 0 {
                    Err(Error::DeckExhausted)
                } else {
                    let hand = r.player_hand.push(r.deck.last());
                    Ok(
                        BjRound {
                            player_hand: hand,
                            deck: r.deck.drop_last(),
                            status: if spec_hand_value(hand) > 21 {
                                RoundStatus::Busted
                            } else {
                                RoundStatus::Playing
                            },
                            ..r
                        },
                    )
                }
            },
            PlayerActionKind::Stand => Ok(BjRound { status: RoundStatus::Stood, ..r }),
            PlayerActionKind::DoubleDown => {
                if r.player_hand.len() != 2 {
                    Err(Error::InvalidActionLog)
                } else if r.deck.len() == 0 {
                    Err(Error::DeckExhausted)
                } else {
                    let hand = r.player_hand.push(r.deck.last());
                    Ok(
                        BjRound {
                            player_hand: hand,
                            deck: r.deck.drop_last(),
                            bet: (if 2 * r.bet > u64::MAX {
                                u64::MAX as int
                            } else {
                                2 * r.bet
                            }) as u64,
                            status: if spec_hand_value(hand) > 21 {
                                RoundStatus::Busted
                            } else {
                                RoundStatus::Stood
                            },
                            ..r
                        },
                    )
                }
            },
        }
    }
}

/// The action log folded over the round, left to right.
pub open spec fn spec_bj_apply(r: BjRound, actions: Seq<PlayerActionKind>) -> Result<
    BjRound,
    Error,
>
    decreases actions.len(),
{
    if actions.len() == 0 {
        Ok(r)
    } else {
        match spec_bj_step(r, actions[0]) {
            Ok(r2) => spec_bj_apply(r2, actions.drop_first()),
            Err(e) => Err(e),
        }
    }
}

/// The dealer's mandatory run, as in the engine: draw from the deck's end
/// while below 17; `None` when the deck runs out first.
pub open spec fn spec_bj_dealer_run(hand: Seq<Card>, deck: Seq<Card>) -> Option<
    (Seq<Card>, Seq<Card>),
>
    decreases deck.len(),
{
    if spec_hand_value(hand) >= 17 {
        Some((hand, deck))
    } else if deck.len() == 0 {
        None
    } else {
        spec_bj_dealer_run(hand.push(deck.last()), deck.drop_last())
    }
}

/// Finish a folded round: the log must have ended the player's turn; a bust
/// settles at once, a natural compares against the dealer's two cards, and
/// a stood hand lets the dealer draw to 17 before the verdict.
pub open spec fn spec_bj_finish(r: BjRound) -> Result<SettlementView, Error> {
    if r.status == RoundStatus::Playing {
        Err(Error::InvalidActionLog)
    } else if r.status == RoundStatus::Busted {
        Ok(
            SettlementView {
                result: GameResult::PlayerBust,
                payout: 0,
                dealer_hand: r.dealer_hand,
            },
        )
    } else if r.status == RoundStatus::Natural {
        let result = if spec_hand_value(r.dealer_hand) == 21 {
            GameResult::Push
        } else {
            GameResult::PlayerBlackjack
        };
        Ok(
            SettlementView {
                result: result,
                payout: crate::blackjack::spec_payout(result, r.bet),
                dealer_hand: r.dealer_hand,
            },
        )
    } else {
        match spec_bj_dealer_run(r.dealer_hand, r.deck) {
            None => Err(Error::DeckExhausted),
            Some(run) => {
                let pv = spec_hand_value(r.player_hand);
                let dv = spec_hand_value(run.0);
                let result = if dv > 21 {
                    GameResult::DealerBust
                } else if pv > dv {
                    GameResult::PlayerWin
                } else if dv > pv {
                    GameResult::DealerWin
                } else {
                    GameResult::Push
                };
                Ok(
                    SettlementView {
                        result: result,
                        payout: crate::blackjack::spec_payout(result, r.bet),
                        dealer_hand: run.0,
                    },
                )
            },
        }
    }
}

/// The whole deterministic round: deal from the seed, fold the action log,
/// finish. This is the one function both sides compute; it depends on the
/// seed, the bet, and the actions alone.
pub open spec fn spec_play(seed: u64, bet: u64, actions: Seq<PlayerActionKind>) -> Result<
    SettlementView,
    Error,
> {
    match spec_bj_apply(spec_bj_deal(seed, bet), actions) {
        Ok(r) => spec_bj_finish(r),
        Err(e) => Err(e),
    }
}

/// Replay is a function: two computations of the same round from the same
/// seed, bet, and action log agree exactly, whichever side runs them.
pub proof fn lemma_replay_agreement(
    seed: u64,
    bet: u64,
    actions: Seq<PlayerActionKind>,
    first: Result<SettlementView, Error>,
    second: Result<SettlementView, Error>,
)
    requires
        first == spec_play(seed, bet, actions),
        second == spec_play(seed, bet, actions),
    ensures
        first == second,
{
}

/// Deterministically replay a reported blackjack round from its seed, bet,
/// and action log, arriving at the authoritative settlement.
pub fn replay_and_verify(seed: u64, bet: u64, actions: &Vec<PlayerActionKind>) -> (r: Result<
    Settlement,
    Error,
>)
    ensures
        match spec_play(seed, bet, actions@) {
            Ok(v) => r is Ok && r->Ok_0@ == v,
            Err(e) => r == Err::<Settlement, Error>(e),
        },
{
    let mut deck = crate::engine::build_deck(1);
    crate::engine::shuffle(&mut deck, seed);
    proof {
        crate::engine::lemma_shuffled_multiset(spec_deck(1), seed);
        assert(deck@.len() == 52);
    }
    let ghost d: Seq<Card> = spec_shuffled(spec_deck(1), seed);
    let p1 = crate::engine::draw_card(&mut deck);
    let p2 = crate::engine::draw_card(&mut deck);
    let dc1 = crate::engine::draw_card(&mut deck);
    let dc2 = crate::engine::draw_card(&mut deck);
    let mut player_hand: Vec<Card> = Vec::new();
    player_hand.push(p1);
    player_hand.push(p2);
    let mut dealer_hand: Vec<Card> = Vec::new();
    dealer_hand.push(dc1);
    dealer_hand.push(dc2);
    proof {
        assert(player_hand@ =~= seq![d[51], d[50]]);
        assert(dealer_hand@ =~= seq![d[49], d[48]]);
        assert(deck@ =~= d.take(48));
    }
    let opening_value = crate::engine::hand_value(&player_hand);
    let mut status: RoundStatus = if opening_value == 21 {
        RoundStatus::Natural
    } else {
        RoundStatus::Playing
    };
    let mut bet_now: u64 = bet;
    let ghost r0: BjRound = spec_bj_deal(seed, bet);
    proof {
        assert(r0 =~= (BjRound {
            player_hand: player_hand@,
            dealer_hand: dealer_hand@,
            deck: deck@,
            bet: bet_now,
            status: status,
        }));
    }
    let mut k: usize = 0;
    while k < actions.len()
        invariant
            k <= actions@.len(),
            r0 == spec_bj_deal(seed, bet),
            spec_bj_apply(r0, actions@.take(k as int)) == Ok::<BjRound, Error>(
                (BjRound {
                    player_hand: player_hand@,
                    dealer_hand: dealer_hand@,
                    deck: deck@,
                    bet: bet_now,
                    status: status,
                }),
            ),
        decreases actions@.len() - k,
    {
        let ghost cur: BjRound = BjRound {
            player_hand: player_hand@,
            dealer_hand: dealer_hand@,
            deck: deck@,
            bet: bet_now,
            status: status,
        };
        let action = actions[k];
        if !matches!(status, RoundStatus::Playing) {
            proof {
                lemma_bj_apply_err(r0, actions@, k as int, Error::InvalidActionLog);
            }
            return Err(Error::InvalidActionLog);
        }
        match action {
            PlayerActionKind::Hit => {
                if deck.is_empty() {
                    proof {
                        lemma_bj_apply_err(r0, actions@, k as int, Error::DeckExhausted);
                    }
                    return Err(Error::DeckExhausted);
                }
                let card = crate::engine::draw_card(&mut deck);
                player_hand.push(card);
                let value = crate::engine::hand_value(&player_hand);
                if value > 21 {
                    status = RoundStatus::Busted;
                }
            },
            PlayerActionKind::Stand => {
                status = RoundStatus::Stood;
            },
            PlayerActionKind::DoubleDown => {
                if player_hand.len() != 2 {
                    proof {
                        lemma_bj_apply_err(r0, actions@, k as int, Error::InvalidActionLog);
                    }
                    return Err(Error::InvalidActionLog);
                }
                if deck.is_empty() {
                    proof {
                        lemma_bj_apply_err(r0, actions@, k as int, Error::DeckExhausted);
                    }
                    return Err(Error::DeckExhausted);
                }
                bet_now = if bet_now > u64::MAX / 2 {
                    u64::MAX
                } else {
                    bet_now * 2
                };
                let card = crate::engine::draw_card(&mut deck);
                player_hand.push(card);
                let value = crate::engine::hand_value(&player_hand);
                status = if value > 21 {
                    RoundStatus::Busted
                } else {
                    RoundStatus::Stood
                };
            },
        }
        proof {
            let next = BjRound {
                player_hand: player_hand@,
                dealer_hand: dealer_hand@,
                deck: deck@,
                bet: bet_now,
                status: status,
            };
            assert(spec_bj_step(cur, actions@[k as int]) == Ok::<BjRound, Error>(next)) by {
                assert(next =~= spec_bj_step(cur, actions@[k as int])->Ok_0);
            }
            lemma_bj_apply_snoc(r0, actions@, k as int, cur, next);
        }
        k += 1;
    }
    proof {
        assert(actions@.take(actions@.len() as int) =~= actions@);
    }
    let ghost folded: BjRound = BjRound {
        player_hand: player_hand@,
        dealer_hand: dealer_hand@,
        deck: deck@,
        bet: bet_now,
        status: status,
    };
    if matches!(status, RoundStatus::Playing) {
        return Err(Error::InvalidActionLog);
    }
    if matches!(status, RoundStatus::Busted) {
        let r = Settlement { result: GameResult::PlayerBust, payout: 0, dealer_hand };
        proof {
            assert(r@ =~= spec_bj_finish(folded)->Ok_0);
        }
        return Ok(r);
    }
    if matches!(status, RoundStatus::Natural) {
        let dealer_value = crate::engine::hand_value(&dealer_hand);
        let result = if dealer_value == 21 {
            GameResult::Push
        } else {
            GameResult::PlayerBlackjack
        };
        let payout = crate::blackjack::payout_for(result, bet_now);
        let r = Settlement { result, payout, dealer_hand };
        proof {
            assert(r@ =~= spec_bj_finish(folded)->Ok_0);
        }
        return Ok(r);
    }
    let mut value = crate::engine::hand_value(&dealer_hand);
    while value < 17
        invariant
            value == spec_hand_value(dealer_hand@),
            spec_bj_dealer_run(folded.dealer_hand, folded.deck) == spec_bj_dealer_run(
                dealer_hand@,
                deck@,
            ),
            spec_bj_apply(spec_bj_deal(seed, bet), actions@) == Ok::<BjRound, Error>(folded),
            folded.status == RoundStatus::Stood,
            folded.player_hand == player_hand@,
            folded.bet == bet_now,
        decreases deck@.len(),
    {
        if deck.is_empty() {
            return Err(Error::DeckExhausted);
        }
        let card = crate::engine::draw_card(&mut deck);
        dealer_hand.push(card);
        value = crate::engine::hand_value(&dealer_hand);
    }
    let player_value = crate::engine::hand_value(&player_hand);
    let result = if value > 21 {
        GameResult::DealerBust
    } else if player_value > value {
        GameResult::PlayerWin
    } else if value > player_value {
        GameResult::DealerWin
    } else {
        GameResult::Push
    };
    let payout = crate::blackjack::payout_for(result, bet_now);
    let r = Settlement { result, payout, dealer_hand };
    proof {
        assert(r@ =~= spec_bj_finish(folded)->Ok_0);
    }
    Ok(r)
}

/// The bank: the master seed, the monotone game id allocator, the house
/// ledger, and the pending-game registry bridging request and report.
#[derive(Debug)]
pub struct Bank {
    pub master_seed: u64,
    pub next_game_id: u64,
    pub house_balance: u64,
    pub pending: Vec<(u64, PendingGame)>,
}

#[verifier::ext_equal]
pub struct BankView {
    pub master_seed: u64,
    pub next_game_id: u64,
    pub house_balance: u64,
    pub pending: Seq<(u64, PendingGame)>,
}

impl View for Bank {
    type V = BankView;

    open spec fn view(&self) -> BankView {
        BankView {
            master_seed: self.master_seed,
            next_game_id: self.next_game_id,
            house_balance: self.house_balance,
            pending: self.pending@,
        }
    }
}

/// First pending position at or after `k` holding `id`, or -1.
pub open spec fn pending_find_from(pending: Seq<(u64, PendingGame)>, id: u64, k: int) -> int
    decreases pending.len() - k,
{
    if k < 0 || k >= pending.len() {
        -1
    } else if pending[k].0 == id {
        k
    } else {
        pending_find_from(pending, id, k + 1)
    }
}

/// Pending position of `id`, or -1 if no such escrow exists.
pub open spec fn find_pending(pending: Seq<(u64, PendingGame)>, id: u64) -> int {
    pending_find_from(pending, id, 0)
}

pub proof fn lemma_pending_find_from(pending: Seq<(u64, PendingGame)>, id: u64, k: int)
    requires
        0 <= k <= pending.len(),
    ensures
        pending_find_from(pending, id, k) == -1 ==> forall|i: int|
            k <= i < pending.len() ==> pending[i].0 != id,
        pending_find_from(pending, id, k) != -1 ==> k <= pending_find_from(pending, id, k)
            < pending.len() && pending[pending_find_from(pending, id, k)].0 == id,
    decreases pending.len() - k,
{
    if k < pending.len() {
        lemma_pending_find_from(pending, id, k + 1);
    }
}

impl BankView {
    /// Bank invariant: at most one outstanding pending game per id.
    pub open spec fn wf(self) -> bool {
        forall|i: int, j: int|
            0 <= i < j < self.pending.len() ==> self.pending[i].0 != self.pending[j].0
    }
}

/// The house ledger after settling a round: the house pays out the excess
/// of payout over bet, or pockets the excess of bet over payout, always
/// saturating so no adversarial round can wrap the ledger.
pub open spec fn spec_house_after(house: u64, bet: u64, payout: u64) -> u64 {
    if payout >= bet {
        if house < payout - bet {
            0
        } else {
            (house - (payout - bet)) as u64
        }
    } else {
        (if house + (bet - payout) > u64::MAX {
            u64::MAX as int
        } else {
            house + (bet - payout)
        }) as u64
    }
}

/// The house ledger update as the bank computes it.
pub fn house_after(house: u64, bet: u64, payout: u64) -> (r: u64)
    ensures
        r == spec_house_after(house, bet, payout),
{
    if payout >= bet {
        let diff = payout - bet;
        if house < diff {
            0
        } else {
            house - diff
        }
    } else {
        house.saturating_add(bet - payout)
    }
}

/// Conservation: as long as nothing saturates, the chips the player ends
/// with plus the chips the house ends with equal what the two held before
/// the round; in between, the bet the player escrowed at the request is
/// exactly the bank's outstanding liability. The house change is the
/// negative of the player's net change: no chips are created or destroyed.
pub proof fn lemma_conservation(house: u64, player_balance: u64, bet: u64, payout: u64)
    requires
        bet <= player_balance,
        payout >= bet ==> house >= payout - bet,
        payout < bet ==> house + (bet - payout) <= u64::MAX,
        player_balance - bet + payout <= u64::MAX,
    ensures
        spec_house_after(house, bet, payout) + ((player_balance - bet + payout) as u64) == house
            + player_balance,
        spec_house_after(house, bet, payout) - house == -(((player_balance - bet + payout) as u64)
            - player_balance),
{
}

/// What a game request does: allocate the next id, derive the round seed
/// from the master seed, the id, the player, and the clock, and escrow the
/// request under the id.
pub open spec fn spec_handle_request(
    b: BankView,
    player: u64,
    player_chain: u64,
    game_type: GameType,
    bet: u64,
    now: u64,
) -> (BankView, u64, u64) {
    let id = b.next_game_id;
    let seed = spec_round_seed(b.master_seed, id, player, now);
    let entry = PendingGame {
        player: player,
        player_chain: player_chain,
        game_type: game_type,
        bet: bet,
        seed: seed,
        created_at: now,
    };
    let i = find_pending(b.pending, id);
    let pending2 = if i == -1 {
        b.pending.push((id, entry))
    } else {
        b.pending.update(i, (id, entry))
    };
    (
        BankView {
            pending: pending2,
            next_game_id: if b.next_game_id == u64::MAX {
                0
            } else {
                (b.next_game_id + 1) as u64
            },
            ..b
        },
        id,
        seed,
    )
}

/// What a result report does: fail closed when no pending game matches the
/// id; reject a reporter who is not the escrowed player; otherwise replay
/// the log, settle the ledger from the replay's payout alone, and remove
/// the pending entry exactly once.
pub open spec fn spec_handle_report(
    b: BankView,
    game_id: u64,
    reporter: u64,
    actions: Seq<PlayerActionKind>,
) -> Result<(BankView, SettlementView), Error> {
    let i = find_pending(b.pending, game_id);
    if i == -1 {
        Err(Error::GameNotFound)
    } else {
        let entry = b.pending[i].1;
        if reporter != entry.player {
            Err(Error::IdentityMismatch)
        } else {
            match spec_play(entry.seed, entry.bet, actions) {
                Err(e) => Err(e),
                Ok(s) => Ok(
                    (
                        BankView {
                            house_balance: spec_house_after(b.house_balance, entry.bet, s.payout),
                            pending: b.pending.remove(i),
                            ..b
                        },
                        s,
                    ),
                ),
            }
        }
    }
}

/// No double payout: once a report for a game id has settled, the pending
/// entry is gone, and any second report for the same id fails closed with
/// GameNotFound, whoever sends it and whatever log it carries.
pub proof fn lemma_no_double_payout(
    b: BankView,
    game_id: u64,
    reporter: u64,
    actions: Seq<PlayerActionKind>,
    reporter2: u64,
    actions2: Seq<PlayerActionKind>,
)
    requires
        b.wf(),
        spec_handle_report(b, game_id, reporter, actions) is Ok,
    ensures
        spec_handle_report(
            spec_handle_report(b, game_id, reporter, actions)->Ok_0.0,
            game_id,
            reporter2,
            actions2,
        ) == Err::<(BankView, SettlementView), Error>(Error::GameNotFound),
{
    let i = find_pending(b.pending, game_id);
    lemma_pending_find_from(b.pending, game_id, 0);
    let after = spec_handle_report(b, game_id, reporter, actions)->Ok_0.0;
    assert(after.pending =~= b.pending.remove(i));
    assert forall|j: int| 0 <= j < after.pending.len() implies after.pending[j].0 != game_id by {
        if j < i {
            assert(after.pending[j] == b.pending[j]);
        } else {
            assert(after.pending[j] == b.pending[j + 1]);
        }
    }
    lemma_pending_find_from(after.pending, game_id, 0);
    if find_pending(after.pending, game_id) != -1 {
        assert(after.pending[find_pending(after.pending, game_id)].0 == game_id);
    }
}

impl Bank {
    /// A fresh bank around a master seed and an opening house ledger.
    pub fn new(master_seed: u64, house_balance: u64) -> (r: Bank)
        ensures
            r@.master_seed == master_seed,
            r@.next_game_id == 0,
            r@.house_balance == house_balance,
            r@.pending == Seq::<(u64, PendingGame)>::empty(),
            r@.wf(),
    {
        let r = Bank { master_seed, next_game_id: 0, house_balance, pending: Vec::new() };
        proof {
            assert(r@.pending =~= Seq::<(u64, PendingGame)>::empty());
        }
        r
    }

    /// Pending position of `id`, if any.
    fn find_index(&self, id: u64) -> (r: Option<usize>)
        ensures
            match r {
                Some(i) => i < self.pending@.len() && find_pending(self@.pending, id) == i as int,
                None => find_pending(self@.pending, id) == -1,
            },
    {
        let mut k: usize = 0;
        while k < self.pending.len()
            invariant
                k <= self.pending@.len(),
                pending_find_from(self@.pending, id, 0) == pending_find_from(
                    self@.pending,
                    id,
                    k as int,
                ),
            decreases self.pending@.len() - k,
        {
            if self.pending[k].0 == id {
                return Some(k);
            }
            k += 1;
        }
        None
    }

    /// Allocate a game id, derive the round seed, and escrow the request,
    /// per `spec_handle_request`.
    pub fn handle_request(
        &mut self,
        player: u64,
        player_chain: u64,
        game_type: GameType,
        bet: u64,
        now: u64,
    ) -> (r: (u64, u64))
        requires
            old(self)@.wf(),
        ensures
            final(self)@ == spec_handle_request(old(self)@, player, player_chain, game_type, bet, now).0,
            r.0 == spec_handle_request(old(self)@, player, player_chain, game_type, bet, now).1,
            r.1 == spec_handle_request(old(self)@, player, player_chain, game_type, bet, now).2,
            final(self)@.wf(),
    {
        let ghost old_view: BankView = self@;
        let id = self.next_game_id;
        let seed = round_seed(self.master_seed, id, player, now);
        let entry = PendingGame { player, player_chain, game_type, bet, seed, created_at: now };
        self.next_game_id = if self.next_game_id == u64::MAX {
            0
        } else {
            self.next_game_id + 1
        };
        let found = self.find_index(id);
        proof {
            lemma_pending_find_from(old_view.pending, id, 0);
        }
        match found {
            Some(i) => {
                self.pending[i] = (id, entry);
            },
            None => {
                self.pending.push((id, entry));
            },
        }
        proof {
            assert(self@ =~= spec_handle_request(old_view, player, player_chain, game_type, bet, now).0);
        }
        (id, seed)
    }

    /// Replay a reported blackjack round and settle it, per
    /// `spec_handle_report`: the player's claim is never consulted, only
    /// the replay's own verdict, and the pending entry is removed exactly
    /// once.
    pub fn handle_report(&mut self, game_id: u64, reporter: u64, actions: &Vec<PlayerActionKind>)
        -> (r: Result<Settlement, Error>)
        requires
            old(self)@.wf(),
        ensures
            match spec_handle_report(old(self)@, game_id, reporter, actions@) {
                Ok(v) => r is Ok && final(self)@ == v.0 && r->Ok_0@ == v.1,
                Err(e) => r == Err::<Settlement, Error>(e) && final(self)@ == old(self)@,
            },
            final(self)@.wf(),
    {
        let ghost old_view: BankView = self@;
        let i: usize = match self.find_index(game_id) {
            Some(i) => i,
            None => {
                return Err(Error::GameNotFound);
            },
        };
        let entry = self.pending[i].1;
        if reporter != entry.player {
            return Err(Error::IdentityMismatch);
        }
        let settlement = match replay_and_verify(entry.seed, entry.bet, actions) {
            Ok(s) => s,
            Err(e) => {
                return Err(e);
            },
        };
        self.house_balance = house_after(self.house_balance, entry.bet, settlement.payout);
        self.pending.remove(i);
        proof {
            lemma_pending_find_from(old_view.pending, game_id, 0);
            assert(self@ =~= spec_handle_report(old_view, game_id, reporter, actions@)->Ok_0.0);
            assert forall|a: int, c: int|
                0 <= a < c < self@.pending.len() implies self@.pending[a].0
                != self@.pending[c].0 by {
                let oa = if a < i as int {
                    a
                } else {
                    a + 1
                };
                let oc = if c < i as int {
                    c
                } else {
                    c + 1
                };
                assert(self@.pending[a] == old_view.pending[oa]);
                assert(self@.pending[c] == old_view.pending[oc]);
            }
        }
        Ok(settlement)
    }

    /// The wheel slot a one-shot roulette round lands on, from its seed.
    pub fn roulette_outcome(seed: u64) -> (r: u8)
        ensures
            r == spec_roulette_outcome(seed),
    {
        let mut rng = crate::rng::SimpleRng::new(seed);
        let draw = rng.next();
        crate::roulette::wheel_number((draw % 38) as usize)
    }

    /// Settle a one-shot roulette request in the same turn, per
    /// `spec_handle_roulette`: no pending entry is needed because no second
    /// message will arrive.
    pub fn handle_roulette(&mut self, player: u64, bet: crate::roulette::Bet, now: u64) -> (r:
        Result<(u8, u64), Error>)
        requires
            old(self)@.wf(),
        ensures
            match spec_handle_roulette(old(self)@, player, bet, now) {
                Ok(v) => r == Ok::<(u8, u64), Error>((v.1, v.2)) && final(self)@ == v.0,
                Err(e) => r == Err::<(u8, u64), Error>(e) && final(self)@ == old(self)@,
            },
            final(self)@.wf(),
    {
        let ghost old_view: BankView = self@;
        if bet.amount == 0 {
            return Err(Error::InvalidBet);
        }
        let selection_ok = crate::roulette::validate_bet(&bet);
        if selection_ok.is_err() {
            return Err(Error::InvalidBet);
        }
        let id = self.next_game_id;
        let seed = round_seed(self.master_seed, id, player, now);
        self.next_game_id = if self.next_game_id == u64::MAX {
            0
        } else {
            self.next_game_id + 1
        };
        let winning = Self::roulette_outcome(seed);
        let won = crate::roulette::check_bet_win(&bet, winning);
        let payout: u64 = if won {
            let amount = bet.amount;
            let winnings: u64 = match bet.bet_type {
                crate::roulette::BetType::StraightUp => {
                    if amount > u64::MAX / 35 {
                        u64::MAX
                    } else {
                        amount * 35
                    }
                },
                crate::roulette::BetType::Dozen | crate::roulette::BetType::Column => {
                    if amount > u64::MAX / 2 {
                        u64::MAX
                    } else {
                        amount * 2
                    }
                },
                crate::roulette::BetType::Color
                | crate::roulette::BetType::Parity
                | crate::roulette::BetType::Range => amount,
            };
            amount.saturating_add(winnings)
        } else {
            0
        };
        self.house_balance = house_after(self.house_balance, bet.amount, payout);
        proof {
            assert(self@ =~= spec_handle_roulette(old_view, player, bet, now)->Ok_0.0);
        }
        Ok((winning, payout))
    }
}

/// The wheel slot a one-shot roulette round lands on: the first draw of the
/// generator seeded by the round seed picks among the 38 slots.
pub open spec fn spec_roulette_outcome(seed: u64) -> u8 {
    crate::roulette::spec_wheel_number((next_of(seed_of(seed)) as int) % 38)
}

/// What a one-shot roulette request does: reject a zero stake or an
/// out-of-range selection; otherwise allocate an id, derive the seed, spin,
/// pay the bet at its odds, and settle the house ledger in the same turn.
pub open spec fn spec_handle_roulette(b: BankView, player: u64, bet: crate::roulette::Bet, now: u64)
    -> Result<(BankView, u8, u64), Error> {
    if bet.amount == 0 {
        Err(Error::InvalidBet)
    } else if !crate::roulette::spec_valid_selection(bet) {
        Err(Error::InvalidBet)
    } else {
        let id = b.next_game_id;
        let seed = spec_round_seed(b.master_seed, id, player, now);
        let w = spec_roulette_outcome(seed);
        let payout = crate::roulette::spec_bet_payout(bet, w);
        Ok(
            (
                BankView {
                    next_game_id: if b.next_game_id == u64::MAX {
                        0
                    } else {
                        (b.next_game_id + 1) as u64
                    },
                    house_balance: spec_house_after(b.house_balance, bet.amount, payout),
                    ..b
                },
                w,
                payout,
            ),
        )
    }
}

/// Who took a one-shot baccarat round, dealt with engine cards.
pub open spec fn spec_baccarat_outcome(seed: u64) -> crate::baccarat::Winner {
    let d = spec_shuffled(spec_deck(1), seed);
    let n = d.len() as int;
    let p0 = seq![d[n - 1], d[n - 2]];
    let b0 = seq![d[n - 3], d[n - 4]];
    let pv0 = spec_hand_value_baccarat(p0);
    let bv0 = spec_hand_value_baccarat(b0);
    if pv0 >= 8 || bv0 >= 8 {
        spec_bacc_winner(pv0, bv0)
    } else {
        let player_draws = crate::baccarat::spec_should_player_draw(pv0);
        let p1 = if player_draws {
            p0.push(d[n - 5])
        } else {
            p0
        };
        let third = if player_draws {
            Some(crate::engine::spec_baccarat_points(d[n - 5]))
        } else {
            None
        };
        let used = if player_draws {
            5
        } else {
            4int
        };
        let pv1 = spec_hand_value_baccarat(p1);
        let banker_draws = crate::baccarat::spec_should_banker_draw(bv0, third);
        let b1 = if banker_draws {
            b0.push(d[n - used - 1])
        } else {
            b0
        };
        spec_bacc_winner(pv1, spec_hand_value_baccarat(b1))
    }
}

/// The winner by comparing two baccarat values.
pub open spec fn spec_bacc_winner(pv: u8, bv: u8) -> crate::baccarat::Winner {
    if pv > bv {
        crate::baccarat::Winner::Player
    } else if bv > pv {
        crate::baccarat::Winner::Banker
    } else {
        crate::baccarat::Winner::Tie
    }
}

/// What a one-shot baccarat request does: reject a zero stake; otherwise
/// allocate an id, derive the seed, deal the round by the tableau, settle
/// the bet (commission and all) and the house ledger in the same turn.
pub open spec fn spec_handle_baccarat(
    b: BankView,
    player: u64,
    bet: u64,
    bet_type: crate::baccarat::BetType,
    now: u64,
) -> Result<(BankView, crate::baccarat::Winner, u64), Error> {
    if bet == 0 {
        Err(Error::InvalidBet)
    } else {
        let id = b.next_game_id;
        let seed = spec_round_seed(b.master_seed, id, player, now);
        let winner = spec_baccarat_outcome(seed);
        let outcome = crate::baccarat::spec_settle(bet, bet_type, winner);
        Ok(
            (
                BankView {
                    next_game_id: if b.next_game_id == u64::MAX {
                        0
                    } else {
                        (b.next_game_id + 1) as u64
                    },
                    house_balance: spec_house_after(b.house_balance, bet, outcome.2),
                    ..b
                },
                winner,
                outcome.2,
            ),
        )
    }
}

impl Bank {
    /// Settle a one-shot baccarat request in the same turn, per
    /// `spec_handle_baccarat`.
    pub fn handle_baccarat(
        &mut self,
        player: u64,
        bet: u64,
        bet_type: crate::baccarat::BetType,
        now: u64,
    ) -> (r: Result<(crate::baccarat::Winner, u64), Error>)
        requires
            old(self)@.wf(),
        ensures
            match spec_handle_baccarat(old(self)@, player, bet, bet_type, now) {
                Ok(v) => r == Ok::<(crate::baccarat::Winner, u64), Error>((v.1, v.2))
                    && final(self)@ == v.0,
                Err(e) => r == Err::<(crate::baccarat::Winner, u64), Error>(e) && final(self)@
                    == old(self)@,
            },
            final(self)@.wf(),
    {
        let ghost old_view: BankView = self@;
        if bet == 0 {
            return Err(Error::InvalidBet);
        }
        let id = self.next_game_id;
        let seed = round_seed(self.master_seed, id, player, now);
        self.next_game_id = if self.next_game_id == u64::MAX {
            0
        } else {
            self.next_game_id + 1
        };
        let mut deck = crate::engine::build_deck(1);
        crate::engine::shuffle(&mut deck, seed);
        proof {
            crate::engine::lemma_shuffled_multiset(spec_deck(1), seed);
        }
        let ghost d: Seq<Card> = spec_shuffled(spec_deck(1), seed);
        let p1 = crate::engine::draw_card(&mut deck);
        let p2 = crate::engine::draw_card(&mut deck);
        let b1 = crate::engine::draw_card(&mut deck);
        let b2 = crate::engine::draw_card(&mut deck);
        let mut player_hand: Vec<Card> = Vec::new();
        player_hand.push(p1);
        player_hand.push(p2);
        let mut banker_hand: Vec<Card> = Vec::new();
        banker_hand.push(b1);
        banker_hand.push(b2);
        proof {
            assert(player_hand@ =~= seq![d[51], d[50]]);
            assert(banker_hand@ =~= seq![d[49], d[48]]);
        }
        let mut player_value = crate::engine::hand_value_baccarat(&player_hand);
        let mut banker_value = crate::engine::hand_value_baccarat(&banker_hand);
        let natural = player_value >= 8 || banker_value >= 8;
        if !natural {
            let mut third_points: Option<u8> = None;
            if crate::baccarat::should_player_draw(player_value) {
                let third = crate::engine::draw_card(&mut deck);
                let points: u8 = if third.rank == 0 {
                    1
                } else if third.rank <= 8 {
                    third.rank + 1
                } else {
                    0
                };
                third_points = Some(points);
                player_hand.push(third);
                proof {
                    assert(player_hand@ =~= seq![d[51], d[50]].push(d[47]));
                }
                player_value = crate::engine::hand_value_baccarat(&player_hand);
            }
            if crate::baccarat::should_banker_draw(banker_value, third_points) {
                let third = crate::engine::draw_card(&mut deck);
                banker_hand.push(third);
                banker_value = crate::engine::hand_value_baccarat(&banker_hand);
            }
        }
        let winner = if player_value > banker_value {
            crate::baccarat::Winner::Player
        } else if banker_value > player_value {
            crate::baccarat::Winner::Banker
        } else {
            crate::baccarat::Winner::Tie
        };
        let outcome = crate::baccarat::settle(bet, bet_type, winner);
        self.house_balance = house_after(self.house_balance, bet, outcome.2);
        proof {
            assert(winner == spec_baccarat_outcome(seed)) by {
                let round_p1 = if crate::baccarat::spec_should_player_draw(
                    spec_hand_value_baccarat(seq![d[51], d[50]]),
                ) {
                    seq![d[51], d[50]].push(d[47])
                } else {
                    seq![d[51], d[50]]
                };
                assert(player_hand@ =~= round_p1 || player_hand@ =~= seq![d[51], d[50]]);
            }
            assert(self@ =~= spec_handle_baccarat(old_view, player, bet, bet_type, now)->Ok_0.0);
        }
        Ok((winner, outcome.2))
    }
}

/// The player's local copy of one running blackjack round: the seed the
/// bank issued, the escrowed bet, both hands (the dealer's hole card
/// withheld), the deck, and the ordered action log the bank will replay.
#[derive(Debug)]
pub struct ActiveGame {
    pub game_id: u64,
    pub seed: u64,
    pub bet: u64,
    pub game_type: GameType,
    pub phase: RoundStatus,
    pub player_hand: Vec<Card>,
    pub dealer_hand: Vec<Card>,
    pub dealer_hole_card: Option<Card>,
    pub deck: Vec<Card>,
    pub actions: Vec<PlayerActionKind>,
}

#[verifier::ext_equal]
pub struct ActiveGameView {
    pub game_id: u64,
    pub seed: u64,
    pub bet: u64,
    pub game_type: GameType,
    pub phase: RoundStatus,
    pub player_hand: Seq<Card>,
    pub dealer_hand: Seq<Card>,
    pub dealer_hole_card: Option<Card>,
    pub deck: Seq<Card>,
    pub actions: Seq<PlayerActionKind>,
}

impl View for ActiveGame {
    type V = ActiveGameView;

    open spec fn view(&self) -> ActiveGameView {
        ActiveGameView {
            game_id: self.game_id,
            seed: self.seed,
            bet: self.bet,
            game_type: self.game_type,
            phase: self.phase,
            player_hand: self.player_hand@,
            dealer_hand: self.dealer_hand@,
            dealer_hole_card: self.dealer_hole_card,
            deck: self.deck@,
            actions: self.actions@,
        }
    }
}

/// The dealer cards the player holds, hole card included.
pub open spec fn spec_dealer_full(a: ActiveGameView) -> Seq<Card> {
    a.dealer_hand + match a.dealer_hole_card {
        Some(c) => seq![c],
        None => Seq::empty(),
    }
}

/// The replay-agreement invariant of a running round: folding the logged
/// actions over the deal of (seed, bet) lands exactly on the player's local
/// state. This is why the bank's replay reproduces what the player saw.
pub open spec fn spec_active_wf(a: ActiveGameView) -> bool {
    spec_bj_apply(spec_bj_deal(a.seed, a.bet), a.actions) == Ok::<BjRound, Error>(
        (BjRound {
            player_hand: a.player_hand,
            dealer_hand: spec_dealer_full(a),
            deck: a.deck,
            bet: spec_bj_apply(spec_bj_deal(a.seed, a.bet), a.actions)->Ok_0.bet,
            status: a.phase,
        }),
    )
}

/// A record of one settled round in the player's append-only history.
#[derive(Clone, Copy, Debug, PartialEq, Eq, Structural)]
pub struct HistoryRecord {
    pub game_id: u64,
    pub game_type: GameType,
    pub bet: u64,
    pub result: GameResult,
    pub payout: u64,
    pub timestamp: u64,
}

/// One player's side of the protocol: their chip balance, at most one
/// running round, and the append-only history of settled rounds.
#[derive(Debug)]
pub struct PlayerAccount {
    pub balance: u64,
    pub active: Option<ActiveGame>,
    pub history: Vec<HistoryRecord>,
}

#[verifier::ext_equal]
pub struct PlayerAccountView {
    pub balance: u64,
    pub active: Option<ActiveGameView>,
    pub history: Seq<HistoryRecord>,
}

impl View for PlayerAccount {
    type V = PlayerAccountView;

    open spec fn view(&self) -> PlayerAccountView {
        PlayerAccountView {
            balance: self.balance,
            active: match self.active {
                Some(ref a) => Some(a@),
                None => None,
            },
            history: self.history@,
        }
    }
}

impl PlayerAccountView {
    /// Account invariant: a running round always satisfies the
    /// replay-agreement invariant.
    pub open spec fn wf(self) -> bool {
        self.active is Some ==> spec_active_wf(self.active->0)
    }
}

/// What one local action does: it needs a running round in its Playing
/// phase; Hit draws the next card (failing on an exhausted deck) and busts
/// past 21; Stand ends the turn; DoubleDown is only legal on the two-card
/// hand, with a card left to draw and enough balance to escrow a second
/// bet, and ends the turn after its one draw. The action taken is appended
/// to the log, which is exactly what the bank will replay.
pub open spec fn spec_play_action(p: PlayerAccountView, action: PlayerActionKind) -> Result<
    (PlayerAccountView, RoundStatus),
    Error,
> {
    if p.active is None {
        Err(Error::NoActiveRound)
    } else {
        let a = p.active->0;
        if a.phase != RoundStatus::Playing {
            Err(Error::WrongPhase)
        } else {
            match action {
                PlayerActionKind::Hit => {
                    if a.deck.len() == 0 {
                        Err(Error::DeckExhausted)
                    } else {
                        let hand = a.player_hand.push(a.deck.last());
                        let a2 = ActiveGameView {
                            player_hand: hand,
                            deck: a.deck.drop_last(),
                            phase: if spec_hand_value(hand) > 21 {
                                RoundStatus::Busted
                            } else {
                                RoundStatus::Playing
                            },
                            actions: a.actions.push(PlayerActionKind::Hit),
                            ..a
                        };
                        Ok(((PlayerAccountView { active: Some(a2), ..p }), a2.phase))
                    }
                },
                PlayerActionKind::Stand => {
                    let a2 = ActiveGameView {
                        phase: RoundStatus::Stood,
                        actions: a.actions.push(PlayerActionKind::Stand),
                        ..a
                    };
                    Ok(((PlayerAccountView { active: Some(a2), ..p }), RoundStatus::Stood))
                },
                PlayerActionKind::DoubleDown => {
                    if a.player_hand.len() != 2 {
                        Err(Error::DoubleDownNotAllowed)
                    } else if a.deck.len() == 0 {
                        Err(Error::DeckExhausted)
                    } else if p.balance < a.bet {
                        Err(Error::InsufficientBalance)
                    } else {
                        let hand = a.player_hand.push(a.deck.last());
                        let a2 = ActiveGameView {
                            player_hand: hand,
                            deck: a.deck.drop_last(),
                            phase: if spec_hand_value(hand) > 21 {
                                RoundStatus::Busted
                            } else {
                                RoundStatus::Stood
                            },
                            actions: a.actions.push(PlayerActionKind::DoubleDown),
                            ..a
                        };
                        Ok(
                            (
                                (PlayerAccountView {
                                    balance: (p.balance - a.bet) as u64,
                                    active: Some(a2),
                                    ..p
                                }),
                                a2.phase,
                            ),
                        )
                    }
                },
            }
        }
    }
}

impl PlayerAccount {
    /// A fresh account with an opening balance.
    pub fn new(balance: u64) -> (r: PlayerAccount)
        ensures
            r@.balance == balance,
            r@.active is None,
            r@.history == Seq::<HistoryRecord>::empty(),
            r@.wf(),
    {
        let r = PlayerAccount { balance, active: None, history: Vec::new() };
        proof {
            assert(r@.history =~= Seq::<HistoryRecord>::empty());
        }
        r
    }

    /// Escrow the bet before the request message leaves: the chips come
    /// out of the balance immediately, whatever the round later settles to.
    pub fn request_game(&mut self, bet: u64) -> (r: Result<(), Error>)
        requires
            old(self)@.wf(),
        ensures
            old(self)@.active is Some ==> r == Err::<(), Error>(Error::RoundActive) && final(self)@
                == old(self)@,
            old(self)@.active is None && old(self)@.balance < bet ==> r == Err::<(), Error>(
                Error::InsufficientBalance,
            ) && final(self)@ == old(self)@,
            old(self)@.active is None && old(self)@.balance >= bet ==> r is Ok && final(self)@ == (
            PlayerAccountView { balance: (old(self)@.balance - bet) as u64, ..old(self)@ }),
            final(self)@.wf(),
    {
        if self.active.is_some() {
            return Err(Error::RoundActive);
        }
        if self.balance < bet {
            return Err(Error::InsufficientBalance);
        }
        self.balance = self.balance - bet;
        proof {
            assert(self@ =~= (PlayerAccountView {
                balance: (old(self)@.balance - bet) as u64,
                ..old(self)@
            }));
        }
        Ok(())
    }

    /// Deal the round locally from the seed the bank issued, exactly as the
    /// bank will replay it; the hole card stays withheld from display.
    pub fn on_game_ready(&mut self, game_id: u64, seed: u64, bet: u64) -> (r: Result<(), Error>)
        requires
            old(self)@.wf(),
        ensures
            old(self)@.active is Some ==> r == Err::<(), Error>(Error::RoundActive) && final(self)@
                == old(self)@,
            old(self)@.active is None ==> r is Ok && final(self)@.balance == old(self)@.balance
                && final(self)@.history == old(self)@.history && final(self)@.active is Some && (
            final(self)@.active->0.game_id == game_id && final(self)@.active->0.seed == seed
                && final(self)@.active->0.bet == bet && final(self)@.active->0.game_type
                == GameType::Blackjack && final(self)@.active->0.actions
                == Seq::<PlayerActionKind>::empty() && final(self)@.active->0.player_hand
                == spec_bj_deal(seed, bet).player_hand && final(self)@.active->0.dealer_hand
                == seq![spec_bj_deal(seed, bet).dealer_hand[0]] && final(self)@.active->0.dealer_hole_card == Some(spec_bj_deal(seed, bet).dealer_hand[1]) && final(self)@.active->0.deck == spec_bj_deal(seed, bet).deck && final(self)@.active->0.phase
                == spec_bj_deal(seed, bet).status),
            final(self)@.wf(),
    {
        if self.active.is_some() {
            return Err(Error::RoundActive);
        }
        let mut deck = crate::engine::build_deck(1);
        crate::engine::shuffle(&mut deck, seed);
        proof {
            crate::engine::lemma_shuffled_multiset(spec_deck(1), seed);
        }
        let ghost d: Seq<Card> = spec_shuffled(spec_deck(1), seed);
        let p1 = crate::engine::draw_card(&mut deck);
        let p2 = crate::engine::draw_card(&mut deck);
        let up = crate::engine::draw_card(&mut deck);
        let hole = crate::engine::draw_card(&mut deck);
        let mut player_hand: Vec<Card> = Vec::new();
        player_hand.push(p1);
        player_hand.push(p2);
        let mut dealer_hand: Vec<Card> = Vec::new();
        dealer_hand.push(up);
        proof {
            assert(player_hand@ =~= seq![d[51], d[50]]);
            assert(deck@ =~= d.take(48));
        }
        let value = crate::engine::hand_value(&player_hand);
        let phase = if value == 21 {
            RoundStatus::Natural
        } else {
            RoundStatus::Playing
        };
        let game = ActiveGame {
            game_id,
            seed,
            bet,
            game_type: GameType::Blackjack,
            phase,
            player_hand,
            dealer_hand,
            dealer_hole_card: Some(hole),
            deck,
            actions: Vec::new(),
        };
        proof {
            assert(spec_dealer_full(game@) =~= seq![d[49], d[48]]);
            assert(game@.dealer_hand =~= seq![spec_bj_deal(seed, bet).dealer_hand[0]]);
            assert(game@.actions =~= Seq::<PlayerActionKind>::empty());
            assert(spec_bj_deal(seed, bet) =~= (BjRound {
                player_hand: game@.player_hand,
                dealer_hand: spec_dealer_full(game@),
                deck: game@.deck,
                bet: bet,
                status: game@.phase,
            }));
        }
        self.active = Some(game);
        Ok(())
    }

    /// Log and apply one action of the running round, per
    /// `spec_play_action`; the log grows by exactly the action taken,
    /// keeping the replay-agreement invariant.
    pub fn play_action(&mut self, action: PlayerActionKind) -> (r: Result<RoundStatus, Error>)
        requires
            old(self)@.wf(),
        ensures
            match spec_play_action(old(self)@, action) {
                Ok(v) => r == Ok::<RoundStatus, Error>(v.1) && final(self)@ == v.0,
                Err(e) => r == Err::<RoundStatus, Error>(e) && final(self)@ == old(self)@,
            },
            final(self)@.wf(),
    {
        let ghost old_view: PlayerAccountView = self@;
        let guard: (RoundStatus, u64, usize, usize) = match &self.active {
            Some(a) => (a.phase, a.bet, a.player_hand.len(), a.deck.len()),
            None => {
                return Err(Error::NoActiveRound);
            },
        };
        let (phase_now, current_bet, hand_len, deck_len) = guard;
        if !matches!(phase_now, RoundStatus::Playing) {
            return Err(Error::WrongPhase);
        }
        match action {
            PlayerActionKind::Hit => {
                if deck_len == 0 {
                    return Err(Error::DeckExhausted);
                }
            },
            PlayerActionKind::Stand => {},
            PlayerActionKind::DoubleDown => {
                if hand_len != 2 {
                    return Err(Error::DoubleDownNotAllowed);
                }
                if deck_len == 0 {
                    return Err(Error::DeckExhausted);
                }
                if self.balance < current_bet {
                    return Err(Error::InsufficientBalance);
                }
                self.balance = self.balance - current_bet;
            },
        }
        let game = match &mut self.active {
            Some(a) => a,
            None => {
                return Err(Error::NoActiveRound);
            },
        };
        let ghost pre: ActiveGameView = game@;
        match action {
            PlayerActionKind::Hit => {
                let card = crate::engine::draw_card(&mut game.deck);
                game.player_hand.push(card);
                let value = crate::engine::hand_value(&game.player_hand);
                if value > 21 {
                    game.phase = RoundStatus::Busted;
                }
                game.actions.push(PlayerActionKind::Hit);
            },
            PlayerActionKind::Stand => {
                game.phase = RoundStatus::Stood;
                game.actions.push(PlayerActionKind::Stand);
            },
            PlayerActionKind::DoubleDown => {
                let card = crate::engine::draw_card(&mut game.deck);
                game.player_hand.push(card);
                let value = crate::engine::hand_value(&game.player_hand);
                game.phase = if value > 21 {
                    RoundStatus::Busted
                } else {
                    RoundStatus::Stood
                };
                game.actions.push(PlayerActionKind::DoubleDown);
            },
        }
        let status = match &self.active {
            Some(a) => a.phase,
            None => RoundStatus::Playing,
        };
        proof {
            let now_view: ActiveGameView = self@.active->0;
            let folded_pre = spec_bj_apply(spec_bj_deal(pre.seed, pre.bet), pre.actions);
            let stepped = spec_bj_step(folded_pre->Ok_0, action);
            assert(stepped is Ok) by {
                assert(folded_pre->Ok_0.status == RoundStatus::Playing);
            }
            assert(now_view.actions =~= pre.actions.push(action));
            assert(spec_dealer_full(now_view) == spec_dealer_full(pre));
            assert(stepped->Ok_0 =~= (BjRound {
                player_hand: now_view.player_hand,
                dealer_hand: spec_dealer_full(now_view),
                deck: now_view.deck,
                bet: stepped->Ok_0.bet,
                status: now_view.phase,
            }));
            lemma_bj_apply_push(spec_bj_deal(pre.seed, pre.bet), pre.actions, action);
            assert(now_view =~= spec_play_action(old_view, action)->Ok_0.0.active->0);
            assert(self@ =~= spec_play_action(old_view, action)->Ok_0.0);
        }
        Ok(status)
    }

    /// The action log to forward to the bank, once the turn has ended.
    pub fn report(&self) -> (r: Result<Vec<PlayerActionKind>, Error>)
        ensures
            match self@.active {
                Some(a) => {
                    if a.phase == RoundStatus::Playing {
                        r == Err::<Vec<PlayerActionKind>, Error>(Error::RoundActive)
                    } else {
                        r is Ok && r->Ok_0@ == a.actions
                    }
                },
                None => r == Err::<Vec<PlayerActionKind>, Error>(Error::NoActiveRound),
            },
    {
        let game = match &self.active {
            Some(a) => a,
            None => {
                return Err(Error::NoActiveRound);
            },
        };
        if matches!(game.phase, RoundStatus::Playing) {
            return Err(Error::RoundActive);
        }
        let mut log: Vec<PlayerActionKind> = Vec::new();
        let mut k: usize = 0;
        while k < game.actions.len()
            invariant
                k <= game.actions@.len(),
                log@ == game.actions@.take(k as int),
            decreases game.actions@.len() - k,
        {
            log.push(game.actions[k]);
            proof {
                assert(log@ =~= game.actions@.take(k + 1));
            }
            k += 1;
        }
        proof {
            assert(game.actions@.take(game.actions@.len() as int) =~= game.actions@);
        }
        Ok(log)
    }

    /// Credit the authoritative payout, record the settled round, and clear
    /// the finished game.
    pub fn on_settled(&mut self, result: GameResult, payout: u64, now: u64) -> (r: Result<
        (),
        Error,
    >)
        requires
            old(self)@.wf(),
        ensures
            old(self)@.active is None ==> r == Err::<(), Error>(Error::NoActiveRound) && final(self)@ == old(self)@,
            old(self)@.active is Some ==> r is Ok && final(self)@.active is None
                && final(self)@.balance == (if old(self)@.balance + payout > u64::MAX {
                u64::MAX as int
            } else {
                old(self)@.balance + payout
            }) as u64 && final(self)@.history == old(self)@.history.push(
                (HistoryRecord {
                    game_id: old(self)@.active->0.game_id,
                    game_type: old(self)@.active->0.game_type,
                    bet: old(self)@.active->0.bet,
                    result: result,
                    payout: payout,
                    timestamp: now,
                }),
            ),
            final(self)@.wf(),
    {
        let game = match &self.active {
            Some(a) => a,
            None => {
                return Err(Error::NoActiveRound);
            },
        };
        let record = HistoryRecord {
            game_id: game.game_id,
            game_type: game.game_type,
            bet: game.bet,
            result,
            payout,
            timestamp: now,
        };
        self.history.push(record);
        self.balance = self.balance.saturating_add(payout);
        self.active = None;
        Ok(())
    }

    /// Clear a finished round without settlement; illegal mid-round, and
    /// with no cross-chain effect: an escrowed but unresolved bet stays the
    /// bank's liability until a result is reported.
    pub fn reset(&mut self) -> (r: Result<(), Error>)
        requires
            old(self)@.wf(),
        ensures
            (old(self)@.active is Some && old(self)@.active->0.phase == RoundStatus::Playing) ==> r
                == Err::<(), Error>(Error::RoundActive) && final(self)@ == old(self)@,
            !(old(self)@.active is Some && old(self)@.active->0.phase == RoundStatus::Playing)
                ==> r is Ok && final(self)@ == (PlayerAccountView { active: None, ..old(self)@ }),
            final(self)@.wf(),
    {
        match &self.active {
            Some(a) => {
                if matches!(a.phase, RoundStatus::Playing) {
                    return Err(Error::RoundActive);
                }
            },
            None => {},
        }
        self.active = None;
        proof {
            assert(self@ =~= (PlayerAccountView { active: None, ..old(self)@ }));
        }
        Ok(())
    }
}

/// Replay agreement, end to end: replaying a finished round's logged
/// actions from its seed and bet arrives exactly at the player's local
/// hands and status, so the verdict the bank computes is the verdict of
/// the very round the player saw.
pub proof fn lemma_report_matches_local_round(a: ActiveGameView)
    requires
        spec_active_wf(a),
        a.phase != RoundStatus::Playing,
    ensures
        spec_play(a.seed, a.bet, a.actions) == spec_bj_finish(
            (BjRound {
                player_hand: a.player_hand,
                dealer_hand: spec_dealer_full(a),
                deck: a.deck,
                bet: spec_bj_apply(spec_bj_deal(a.seed, a.bet), a.actions)->Ok_0.bet,
                status: a.phase,
            }),
        ),
{
}

/// Folding one more action equals stepping the fold's result.
proof fn lemma_bj_apply_push(r0: BjRound, actions: Seq<PlayerActionKind>, action: PlayerActionKind)
    requires
        spec_bj_apply(r0, actions) is Ok,
        spec_bj_step(spec_bj_apply(r0, actions)->Ok_0, action) is Ok,
    ensures
        spec_bj_apply(r0, actions.push(action)) == spec_bj_step(
            spec_bj_apply(r0, actions)->Ok_0,
            action,
        ),
    decreases actions.len(),
{
    if actions.len() == 0 {
        let stepped = spec_bj_step(r0, action);
        assert(actions.push(action)[0] == action);
        assert(actions.push(action).drop_first() =~= Seq::<PlayerActionKind>::empty());
        assert(stepped == Ok::<BjRound, Error>(stepped->Ok_0));
        assert(spec_bj_apply(stepped->Ok_0, actions.push(action).drop_first()) == Ok::<
            BjRound,
            Error,
        >(stepped->Ok_0));
        assert(spec_bj_apply(r0, actions.push(action)) == Ok::<BjRound, Error>(stepped->Ok_0));
    } else {
        match spec_bj_step(r0, actions[0]) {
            Ok(r1) => {
                assert(actions.push(action)[0] == actions[0]);
                assert(actions.push(action).drop_first() =~= actions.drop_first().push(action));
                lemma_bj_apply_push(r1, actions.drop_first(), action);
                assert(spec_bj_apply(r0, actions.push(action)) == spec_bj_apply(
                    r1,
                    actions.drop_first().push(action),
                ));
                assert(spec_bj_apply(r0, actions) == spec_bj_apply(r1, actions.drop_first()));
            },
            Err(e) => {
                assert(false);
            },
        }
    }
}

/// A failing step makes the whole fold fail with the same error.
proof fn lemma_bj_apply_err(r0: BjRound, actions: Seq<PlayerActionKind>, k: int, e: Error)
    requires
        0 <= k < actions.len(),
        spec_bj_apply(r0, actions.take(k)) is Ok,
        spec_bj_step(spec_bj_apply(r0, actions.take(k))->Ok_0, actions[k]) == Err::<BjRound, Error>(
            e,
        ),
    ensures
        spec_bj_apply(r0, actions) == Err::<BjRound, Error>(e),
    decreases k,
{
    if k == 0 {
        assert(actions.take(0) =~= Seq::<PlayerActionKind>::empty());
        assert(spec_bj_apply(r0, actions.take(0)) == Ok::<BjRound, Error>(r0));
        assert(actions[0] == actions.take(actions.len() as int)[0]);
        assert(spec_bj_step(r0, actions[0]) == Err::<BjRound, Error>(e));
    } else {
        let first = actions.take(k)[0];
        assert(first == actions[0]);
        match spec_bj_step(r0, actions[0]) {
            Ok(r1) => {
                assert(actions.take(k).drop_first() =~= actions.drop_first().take(k - 1));
                assert(actions.drop_first()[k - 1] == actions[k]);
                lemma_bj_apply_err(r1, actions.drop_first(), k - 1, e);
            },
            Err(e2) => {
                assert(spec_bj_apply(r0, actions.take(k)) is Err);
            },
        }
    }
}

/// Extending the fold by one successful step.
proof fn lemma_bj_apply_snoc(
    r0: BjRound,
    actions: Seq<PlayerActionKind>,
    k: int,
    cur: BjRound,
    next: BjRound,
)
    requires
        0 <= k < actions.len(),
        spec_bj_apply(r0, actions.take(k)) == Ok::<BjRound, Error>(cur),
        spec_bj_step(cur, actions[k]) == Ok::<BjRound, Error>(next),
    ensures
        spec_bj_apply(r0, actions.take(k + 1)) == Ok::<BjRound, Error>(next),
    decreases k,
{
    if k == 0 {
        assert(actions.take(0) =~= Seq::<PlayerActionKind>::empty());
        assert(cur == r0);
        assert(actions.take(1)[0] == actions[0]);
        assert(actions.take(1).drop_first() =~= Seq::<PlayerActionKind>::empty());
    } else {
        let first = actions.take(k)[0];
        assert(first == actions[0]);
        assert(actions.take(k + 1)[0] == actions[0]);
        match spec_bj_step(r0, actions[0]) {
            Ok(r1) => {
                assert(actions.take(k).drop_first() =~= actions.drop_first().take(k - 1));
                assert(actions.take(k + 1).drop_first() =~= actions.drop_first().take(k));
                assert(actions.drop_first()[k - 1] == actions[k]);
                lemma_bj_apply_snoc(r1, actions.drop_first(), k - 1, cur, next);
            },
            Err(e2) => {
                assert(false);
            },
        }
    }
}

} // verus!
