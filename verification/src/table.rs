//! The multiplayer blackjack table: a per-game state machine that collects
//! hash commitments in the lobby, then reveals, then one dealer-submitted
//! VRF output, combines everything into one shared seed nobody could bias
//! alone, deals from the ChaCha20-shuffled deck, walks the turn queue, and
//! settles every player against the dealer's final hand.
//!
//! Every operation is a guarded transition: attempted in the wrong phase or
//! by the wrong party it fails without mutating state. The contracts state
//! each transition exactly, as a function of the table's mathematical view.

use vstd::prelude::*;

use crate::crypto::{chacha_shuffled, chacha_shuffle, hash_bytes, into_fixed, sha256_of, verify_vrf};
use crate::engine::{spec_from_index, spec_hand_value, Card};
use crate::error::Error;

verus! {

pub type GameId = u64;

/// A participant identity, as the surrounding runtime resolves it.
pub type OwnerId = u64;

#[derive(Clone, Copy, Debug, PartialEq, Eq, Structural)]
pub enum GamePhase {
    Lobby,
    Reveal,
    AwaitingVrf,
    ReadyToDeal,
    PlayerTurns,
    DealerTurn,
    Settled,
    Cancelled,
}

impl Default for GamePhase {
    fn default() -> (r: GamePhase)
        ensures
            r == GamePhase::Lobby,
    {
        GamePhase::Lobby
    }
}

#[derive(Clone, Copy, Debug, PartialEq, Eq, Structural)]
pub enum PlayerStatus {
    Pending,
    Active,
    Stood,
    Busted,
    Blackjack,
    Settled,
}

impl Default for PlayerStatus {
    fn default() -> (r: PlayerStatus)
        ensures
            r == PlayerStatus::Pending,
    {
        PlayerStatus::Pending
    }
}

#[derive(Clone, Copy, Debug, PartialEq, Eq, Structural)]
pub enum PlayerActionKind {
    Hit,
    Stand,
    DoubleDown,
}

/// How a settled player fared: final and dealer hand values, and the win
/// multiplier in percentage points (150 blackjack, 100 win, 0 push, -100
/// loss).
#[derive(Clone, Copy, Debug, PartialEq, Eq, Structural)]
pub struct RoundOutcome {
    pub final_value: u8,
    pub dealer_value: u8,
    pub win_multiplier: i32,
}

/// Table configuration fixed at creation time.
#[derive(Clone, Debug)]
pub struct GameConfig {
    pub dealer: OwnerId,
    pub max_players: u8,
    pub min_bet: u64,
    pub vrf_public_key: Vec<u8>,
    pub allow_mid_join: bool,
    pub round_timeout: Option<u64>,
}

#[verifier::ext_equal]
pub struct GameConfigView {
    pub dealer: OwnerId,
    pub max_players: u8,
    pub min_bet: u64,
    pub vrf_public_key: Seq<u8>,
    pub allow_mid_join: bool,
    pub round_timeout: Option<u64>,
}

impl View for GameConfig {
    type V = GameConfigView;

    open spec fn view(&self) -> GameConfigView {
        GameConfigView {
            dealer: self.dealer,
            max_players: self.max_players,
            min_bet: self.min_bet,
            vrf_public_key: self.vrf_public_key@,
            allow_mid_join: self.allow_mid_join,
            round_timeout: self.round_timeout,
        }
    }
}

/// The dealer-submitted verifiable randomness, kept for auditability.
#[derive(Clone, Debug)]
pub struct VrfRecord {
    pub provider: OwnerId,
    pub public_key: Vec<u8>,
    pub output: Vec<u8>,
    pub proof: Vec<u8>,
    pub message: Vec<u8>,
}

#[verifier::ext_equal]
pub struct VrfRecordView {
    pub provider: OwnerId,
    pub public_key: Seq<u8>,
    pub output: Seq<u8>,
    pub proof: Seq<u8>,
    pub message: Seq<u8>,
}

impl View for VrfRecord {
    type V = VrfRecordView;

    open spec fn view(&self) -> VrfRecordView {
        VrfRecordView {
            provider: self.provider,
            public_key: self.public_key@,
            output: self.output@,
            proof: self.proof@,
            message: self.message@,
        }
    }
}

/// One seated player: escrowed bet, commitment, optional reveal, hand and
/// lifecycle status.
#[derive(Clone, Debug)]
pub struct PlayerData {
    pub owner: OwnerId,
    pub bet: u64,
    pub commitment: Vec<u8>,
    pub revealed_entropy: Option<Vec<u8>>,
    pub hand: Vec<Card>,
    pub status: PlayerStatus,
    pub last_action: Option<PlayerActionKind>,
    pub result: Option<RoundOutcome>,
}

#[verifier::ext_equal]
pub struct PlayerDataView {
    pub owner: OwnerId,
    pub bet: u64,
    pub commitment: Seq<u8>,
    pub revealed_entropy: Option<Seq<u8>>,
    pub hand: Seq<Card>,
    pub status: PlayerStatus,
    pub last_action: Option<PlayerActionKind>,
    pub result: Option<RoundOutcome>,
}

impl View for PlayerData {
    type V = PlayerDataView;

    open spec fn view(&self) -> PlayerDataView {
        PlayerDataView {
            owner: self.owner,
            bet: self.bet,
            commitment: self.commitment@,
            revealed_entropy: match self.revealed_entropy {
                Some(ref v) => Some(v@),
                None => None,
            },
            hand: self.hand@,
            status: self.status,
            last_action: self.last_action,
            result: self.result,
        }
    }
}

/// One table: configuration, phase, the players in join order, the FIFO turn
/// queue, the dealer's hand, the remaining deck, and the combined entropy
/// once every contribution is in.
#[derive(Clone, Debug)]
pub struct GameData {
    pub config: GameConfig,
    pub phase: GamePhase,
    pub players: Vec<PlayerData>,
    pub turn_order: Vec<OwnerId>,
    pub dealer_hand: Vec<Card>,
    pub deck: Vec<Card>,
    pub combined_entropy: Option<Vec<u8>>,
    pub vrf: Option<VrfRecord>,
    pub last_updated_at: u64,
}

#[verifier::ext_equal]
pub struct GameDataView {
    pub config: GameConfigView,
    pub phase: GamePhase,
    pub players: Seq<PlayerDataView>,
    pub turn_order: Seq<OwnerId>,
    pub dealer_hand: Seq<Card>,
    pub deck: Seq<Card>,
    pub combined_entropy: Option<Seq<u8>>,
    pub vrf: Option<VrfRecordView>,
    pub last_updated_at: u64,
}

impl View for GameData {
    type V = GameDataView;

    open spec fn view(&self) -> GameDataView {
        GameDataView {
            config: self.config@,
            phase: self.phase,
            players: self.players@.map_values(|p: PlayerData| p@),
            turn_order: self.turn_order@,
            dealer_hand: self.dealer_hand@,
            deck: self.deck@,
            combined_entropy: match self.combined_entropy {
                Some(ref v) => Some(v@),
                None => None,
            },
            vrf: match self.vrf {
                Some(ref v) => Some(v@),
                None => None,
            },
            last_updated_at: self.last_updated_at,
        }
    }
}

/// First position at or after `k` whose player is owned by `owner`, or -1.
pub open spec fn find_from(players: Seq<PlayerDataView>, owner: OwnerId, k: int) -> int
    decreases players.len() - k,
{
    if k < 0 || k >= players.len() {
        -1
    } else if players[k].owner == owner {
        k
    } else {
        find_from(players, owner, k + 1)
    }
}

/// Position of `owner` in the seating order, or -1 if not seated.
pub open spec fn find_owner(players: Seq<PlayerDataView>, owner: OwnerId) -> int {
    find_from(players, owner, 0)
}

/// Whether `owner` is seated at the table.
pub open spec fn has_owner(players: Seq<PlayerDataView>, owner: OwnerId) -> bool {
    exists|i: int| 0 <= i < players.len() && players[i].owner == owner
}

pub proof fn lemma_find_from(players: Seq<PlayerDataView>, owner: OwnerId, k: int)
    requires
        0 <= k <= players.len(),
    ensures
        find_from(players, owner, k) == -1 ==> forall|i: int|
            k <= i < players.len() ==> players[i].owner != owner,
        find_from(players, owner, k) != -1 ==> k <= find_from(players, owner, k) < players.len()
            && players[find_from(players, owner, k)].owner == owner && forall|i: int|
            k <= i < find_from(players, owner, k) ==> players[i].owner != owner,
    decreases players.len() - k,
{
    if k < players.len() {
        lemma_find_from(players, owner, k + 1);
    }
}

/// Position of `owner` or -1, with the facts a caller needs.
pub proof fn lemma_find_owner(players: Seq<PlayerDataView>, owner: OwnerId)
    ensures
        find_owner(players, owner) == -1 <==> !has_owner(players, owner),
        find_owner(players, owner) != -1 ==> 0 <= find_owner(players, owner) < players.len()
            && players[find_owner(players, owner)].owner == owner,
{
    lemma_find_from(players, owner, 0);
}

/// Whether every joined player has revealed their committed secret.
pub open spec fn all_revealed(players: Seq<PlayerDataView>) -> bool {
    forall|i: int| 0 <= i < players.len() ==> players[i].revealed_entropy is Some
}

/// Seated owners are pairwise distinct.
pub open spec fn distinct_owners(players: Seq<PlayerDataView>) -> bool {
    forall|i: int, j: int|
        0 <= i < j < players.len() ==> players[i].owner != players[j].owner
}

impl GameDataView {
    /// The table's internal invariant: every constructor establishes it and
    /// every operation preserves it.
    pub open spec fn wf(self) -> bool {
        &&& self.config.max_players > 0
        &&& self.players.len() <= self.config.max_players
        &&& distinct_owners(self.players)
        &&& forall|i: int| 0 <= i < self.players.len() ==> (#[trigger] self.players[i]).commitment.len() == 32
        &&& forall|i: int|
            0 <= i < self.players.len() && (#[trigger] self.players[i]).revealed_entropy is Some
                ==> self.players[i].revealed_entropy->0.len() == 32
        &&& (self.combined_entropy is Some ==> self.combined_entropy->0.len() == 32)
        &&& (self.phase == GamePhase::AwaitingVrf ==> all_revealed(self.players))
        &&& (self.phase == GamePhase::ReadyToDeal ==> all_revealed(self.players)
            && self.combined_entropy is Some)
        &&& (self.phase == GamePhase::PlayerTurns ==> self.turn_order.len() > 0)
        &&& forall|k: int|
            0 <= k < self.turn_order.len() ==> has_owner(self.players, #[trigger] self.turn_order[k])
    }

    /// Whether the table admits a new player right now.
    pub open spec fn joinable(self) -> bool {
        self.phase == GamePhase::Lobby || (self.config.allow_mid_join && self.phase
            == GamePhase::Reveal)
    }
}

/// The table a dealer opens: empty seats, empty board, Lobby phase.
pub open spec fn spec_new_game(config: GameConfigView, block: u64) -> GameDataView {
    GameDataView {
        config: config,
        phase: GamePhase::Lobby,
        players: Seq::empty(),
        turn_order: Seq::empty(),
        dealer_hand: Seq::empty(),
        deck: Seq::empty(),
        combined_entropy: None,
        vrf: None,
        last_updated_at: block,
    }
}

/// What joining does: reject a malformed commitment, a closed phase, a full
/// table, a short bet, or a duplicate owner; otherwise seat the player
/// Pending, and enter the Reveal phase once the table is full.
pub open spec fn spec_join(g: GameDataView, owner: OwnerId, bet: u64, commitment: Seq<u8>, block: u64)
    -> Result<GameDataView, Error> {
    if commitment.len() != 32 {
        Err(Error::WrongLength)
    } else if !g.joinable() {
        Err(Error::NotAcceptingPlayers)
    } else if g.players.len() >= g.config.max_players {
        Err(Error::TableFull)
    } else if bet < g.config.min_bet {
        Err(Error::BetBelowMinimum)
    } else if has_owner(g.players, owner) {
        Err(Error::AlreadyJoined)
    } else {
        let seated = g.players.push(
            PlayerDataView {
                owner: owner,
                bet: bet,
                commitment: commitment,
                revealed_entropy: None,
                hand: Seq::empty(),
                status: PlayerStatus::Pending,
                last_action: None,
                result: None,
            },
        );
        Ok(
            GameDataView {
                players: seated,
                phase: if seated.len() == g.config.max_players {
                    GamePhase::Reveal
                } else {
                    g.phase
                },
                last_updated_at: block,
                ..g
            },
        )
    }
}

/// The ASCII bytes of the domain separator appended to a revealed secret, so
/// the stored entropy differs from the commitment pre-image.
pub open spec fn spec_entropy_suffix() -> Seq<u8> {
    seq![58u8, 101u8, 110u8, 116u8, 114u8, 111u8, 112u8, 121u8]
}

/// What revealing does: only in the Reveal phase, only for a seated player,
/// and only when the secret hashes to the stored commitment; then the
/// domain-separated hash of the secret is recorded, and the table advances
/// to AwaitingVrf once every player has revealed.
pub open spec fn spec_reveal(g: GameDataView, owner: OwnerId, secret: Seq<u8>, block: u64)
    -> Result<GameDataView, Error> {
    if g.phase != GamePhase::Reveal {
        Err(Error::WrongPhase)
    } else if !has_owner(g.players, owner) {
        Err(Error::NotJoined)
    } else {
        let i = find_owner(g.players, owner);
        if sha256_of(secret) != g.players[i].commitment {
            Err(Error::CommitmentMismatch)
        } else {
            let updated = g.players.update(
                i,
                PlayerDataView {
                    revealed_entropy: Some(sha256_of(secret + spec_entropy_suffix())),
                    ..g.players[i]
                },
            );
            Ok(
                GameDataView {
                    players: updated,
                    phase: if all_revealed(updated) {
                        GamePhase::AwaitingVrf
                    } else {
                        g.phase
                    },
                    last_updated_at: block,
                    ..g
                },
            )
        }
    }
}

/// The revealed entropies of all players, concatenated in join order.
pub open spec fn entropies_concat(players: Seq<PlayerDataView>) -> Seq<u8>
    decreases players.len(),
{
    if players.len() == 0 {
        Seq::empty()
    } else {
        entropies_concat(players.drop_last()) + players.last().revealed_entropy->0
    }
}

/// The pre-image of the shared seed: game id, VRF output, then every
/// player's revealed entropy in join order.
pub open spec fn entropy_input(game_id: u64, players: Seq<PlayerDataView>, vrf_output: Seq<u8>)
    -> Seq<u8> {
    vstd::bytes::spec_u64_to_le_bytes(game_id) + vrf_output + entropies_concat(players)
}

/// Combine the game id, the VRF output, and every player's revealed entropy
/// into the shared seed, in join order, with a single running hash. Absent
/// any reveal the seed is absent: progress requires full participation.
pub fn compute_entropy(game_id: u64, players: &Vec<PlayerData>, vrf_output: &Vec<u8>) -> (r: Option<
    Vec<u8>,
>)
    ensures
        r is Some <==> all_revealed(players@.map_values(|p: PlayerData| p@)),
        r is Some ==> r->0@ == sha256_of(
            entropy_input(game_id, players@.map_values(|p: PlayerData| p@), vrf_output@),
        ) && r->0@.len() == 32,
{
    let ghost pv: Seq<PlayerDataView> = players@.map_values(|p: PlayerData| p@);
    let mut buffer: Vec<u8> = vstd::bytes::u64_to_le_bytes(game_id);
    buffer.extend_from_slice(vrf_output.as_slice());
    proof {
        assert(buffer@ =~= vstd::bytes::spec_u64_to_le_bytes(game_id) + vrf_output@);
    }
    let ghost prefix: Seq<u8> = buffer@;
    let mut k: usize = 0;
    while k < players.len()
        invariant
            k <= players@.len(),
            pv == players@.map_values(|p: PlayerData| p@),
            pv.len() == players@.len(),
            forall|i: int| 0 <= i < k ==> (#[trigger] pv[i]).revealed_entropy is Some,
            buffer@ == prefix + entropies_concat(pv.take(k as int)),
        decreases players@.len() - k,
    {
        match players[k].revealed_entropy {
            Some(ref entropy) => {
                buffer.extend_from_slice(entropy.as_slice());
                proof {
                    assert(pv[k as int] == players@[k as int]@);
                    assert(pv.take(k + 1).drop_last() =~= pv.take(k as int));
                    assert(pv.take(k + 1).last() == pv[k as int]);
                    assert(buffer@ =~= prefix + entropies_concat(pv.take(k + 1)));
                }
            },
            None => {
                proof {
                    assert(pv[k as int] == players@[k as int]@);
                    assert(!all_revealed(pv));
                }
                return None;
            },
        }
        k += 1;
    }
    proof {
        assert(pv.take(pv.len() as int) =~= pv);
        assert(buffer@ == entropy_input(game_id, pv, vrf_output@));
    }
    Some(hash_bytes(&buffer))
}

/// What submitting VRF output does: only in AwaitingVrf, only by the dealer,
/// only with a 32-byte output that the verification function reproduces from
/// the public key, proof, and message; then the record is stored, the shared
/// seed is combined, and the table becomes ReadyToDeal.
pub open spec fn spec_submit_vrf(
    g: GameDataView,
    signer: OwnerId,
    output: Seq<u8>,
    proof_bytes: Seq<u8>,
    message: Seq<u8>,
    game_id: u64,
    block: u64,
) -> Result<GameDataView, Error> {
    if output.len() != 32 {
        Err(Error::WrongLength)
    } else if g.phase != GamePhase::AwaitingVrf {
        Err(Error::WrongPhase)
    } else if signer != g.config.dealer {
        Err(Error::NotDealer)
    } else if sha256_of(g.config.vrf_public_key + proof_bytes + message) != output {
        Err(Error::VrfInvalid)
    } else if !all_revealed(g.players) {
        Err(Error::MissingReveals)
    } else {
        Ok(
            GameDataView {
                vrf: Some(
                    VrfRecordView {
                        provider: signer,
                        public_key: g.config.vrf_public_key,
                        output: output,
                        proof: proof_bytes,
                        message: message,
                    },
                ),
                combined_entropy: Some(sha256_of(entropy_input(game_id, g.players, output))),
                phase: GamePhase::ReadyToDeal,
                last_updated_at: block,
                ..g
            },
        )
    }
}

impl GameData {
    /// Open a new table with the given configuration.
    pub fn create(
        dealer: OwnerId,
        max_players: u8,
        min_bet: u64,
        vrf_public_key: Vec<u8>,
        allow_mid_join: bool,
        round_timeout: Option<u64>,
        block: u64,
    ) -> (r: Result<GameData, Error>)
        ensures
            max_players > 0 ==> r is Ok && r->Ok_0@ == spec_new_game(
                (GameConfigView {
                    dealer: dealer,
                    max_players: max_players,
                    min_bet: min_bet,
                    vrf_public_key: vrf_public_key@,
                    allow_mid_join: allow_mid_join,
                    round_timeout: round_timeout,
                }),
                block,
            ) && r->Ok_0@.wf(),
            max_players == 0 ==> r == Err::<GameData, Error>(Error::InvalidBet),
    {
        if max_players == 0 {
            return Err(Error::InvalidBet);
        }
        let game = GameData {
            config: GameConfig {
                dealer,
                max_players,
                min_bet,
                vrf_public_key,
                allow_mid_join,
                round_timeout,
            },
            phase: GamePhase::Lobby,
            players: Vec::new(),
            turn_order: Vec::new(),
            dealer_hand: Vec::new(),
            deck: Vec::new(),
            combined_entropy: None,
            vrf: None,
            last_updated_at: block,
        };
        proof {
            assert(game@.players =~= Seq::<PlayerDataView>::empty());
            assert(game@ =~= spec_new_game(game.config@, block));
        }
        Ok(game)
    }

    /// Seat `owner` with a locked commitment, per `spec_join`.
    pub fn join(&mut self, owner: OwnerId, bet: u64, commitment: Vec<u8>, block: u64) -> (r: Result<
        (),
        Error,
    >)
        requires
            old(self)@.wf(),
        ensures
            match spec_join(old(self)@, owner, bet, commitment@, block) {
                Ok(v) => r is Ok && final(self)@ == v,
                Err(e) => r == Err::<(), Error>(e) && final(self)@ == old(self)@,
            },
            final(self)@.wf(),
    {
        let ghost old_view: GameDataView = self@;
        let commitment = match into_fixed::<32>(commitment) {
            Ok(c) => c,
            Err(e) => {
                return Err(e);
            },
        };
        let accepting = match self.phase {
            GamePhase::Lobby => true,
            GamePhase::Reveal => self.config.allow_mid_join,
            _ => false,
        };
        if !accepting {
            return Err(Error::NotAcceptingPlayers);
        }
        if self.players.len() >= self.config.max_players as usize {
            return Err(Error::TableFull);
        }
        if bet < self.config.min_bet {
            return Err(Error::BetBelowMinimum);
        }
        let already = find_player(&self.players, owner);
        proof {
            lemma_find_owner(old_view.players, owner);
        }
        if already.is_some() {
            return Err(Error::AlreadyJoined);
        }
        let player = PlayerData {
            owner,
            bet,
            commitment,
            revealed_entropy: None,
            hand: Vec::new(),
            status: PlayerStatus::Pending,
            last_action: None,
            result: None,
        };
        self.players.push(player);
        if self.players.len() == self.config.max_players as usize {
            self.phase = GamePhase::Reveal;
        }
        self.last_updated_at = block;
        proof {
            let pushed = old_view.players.push(
                (PlayerDataView {
                    owner: owner,
                    bet: bet,
                    commitment: commitment@,
                    revealed_entropy: None,
                    hand: Seq::empty(),
                    status: PlayerStatus::Pending,
                    last_action: None,
                    result: None,
                }),
            );
            assert(self@.players =~= pushed);
            assert(self@ =~= spec_join(old_view, owner, bet, commitment@, block)->Ok_0);
            assert forall|k: int|
                0 <= k < self@.turn_order.len() implies has_owner(
                self@.players,
                #[trigger] self@.turn_order[k],
            ) by {
                assert(has_owner(old_view.players, old_view.turn_order[k]));
                let i = choose|i: int|
                    0 <= i < old_view.players.len() && old_view.players[i].owner
                        == old_view.turn_order[k];
                assert(self@.players[i].owner == old_view.turn_order[k]);
            }
        }
        Ok(())
    }

    /// Reveal the committed secret, per `spec_reveal`.
    pub fn reveal_commitment(&mut self, owner: OwnerId, secret: Vec<u8>, block: u64) -> (r: Result<(), Error>)
        requires
            old(self)@.wf(),
        ensures
            match spec_reveal(old(self)@, owner, secret@, block) {
                Ok(v) => r is Ok && final(self)@ == v,
                Err(e) => r == Err::<(), Error>(e) && final(self)@ == old(self)@,
            },
            final(self)@.wf(),
    {
        let ghost old_view: GameDataView = self@;
        let ghost secret_view: Seq<u8> = secret@;
        if !matches!(self.phase, GamePhase::Reveal) {
            return Err(Error::WrongPhase);
        }
        let found = find_player(&self.players, owner);
        proof {
            lemma_find_owner(old_view.players, owner);
        }
        let i: usize = match found {
            Some(i) => i,
            None => {
                return Err(Error::NotJoined);
            },
        };
        proof {
            assert(old_view.players[i as int] == self.players@[i as int]@);
        }
        let hashed = hash_bytes(&secret);
        let matches_commitment = crate::crypto::vec_u8_eq(&hashed, &self.players[i].commitment);
        if !matches_commitment {
            return Err(Error::CommitmentMismatch);
        }
        let mut salted = secret;
        let suffix = entropy_suffix();
        salted.extend_from_slice(suffix.as_slice());
        proof {
            assert(salted@ =~= secret_view + spec_entropy_suffix());
        }
        let entropy = hash_bytes(&salted);
        let seat = &mut self.players[i];
        seat.revealed_entropy = Some(entropy);
        let all = all_players_revealed(&self.players);
        if all {
            self.phase = GamePhase::AwaitingVrf;
        }
        self.last_updated_at = block;
        proof {
            let spec_updated = old_view.players.update(
                i as int,
                (PlayerDataView {
                    revealed_entropy: Some(sha256_of(secret_view + spec_entropy_suffix())),
                    ..old_view.players[i as int]
                }),
            );
            assert(self@.players =~= spec_updated);
            assert(self@ =~= spec_reveal(old_view, owner, secret_view, block)->Ok_0);
            assert forall|k: int|
                0 <= k < self@.turn_order.len() implies has_owner(
                self@.players,
                #[trigger] self@.turn_order[k],
            ) by {
                assert(has_owner(old_view.players, old_view.turn_order[k]));
                let n = choose|n: int|
                    0 <= n < old_view.players.len() && old_view.players[n].owner
                        == old_view.turn_order[k];
                assert(self@.players[n].owner == old_view.turn_order[k]);
            }
        }
        Ok(())
    }
}

/// The canonical 52 card indices in order, before the shuffle.
pub open spec fn idx52() -> Seq<u8> {
    Seq::new(52, |i: int| i as u8)
}

/// The deck the table deals from: the 52 card indices shuffled by the
/// ChaCha20 generator seeded with the combined entropy, read as cards.
pub open spec fn dealt_deck(seed: Seq<u8>) -> Seq<Card> {
    chacha_shuffled(seed, idx52()).map_values(|b: u8| spec_from_index(b))
}

/// Each player's opening hand: two cards drawn from the end of the deck in
/// join order, with a natural 21 marked Blackjack and everyone else Active.
pub open spec fn dealt_players(players: Seq<PlayerDataView>, d: Seq<Card>) -> Seq<PlayerDataView> {
    Seq::new(
        players.len(),
        |i: int|
            {
                let hand = seq![d[d.len() - 1 - 2 * i], d[d.len() - 2 - 2 * i]];
                PlayerDataView {
                    hand: hand,
                    status: if spec_hand_value(hand) == 21 {
                        PlayerStatus::Blackjack
                    } else {
                        PlayerStatus::Active
                    },
                    ..players[i]
                }
            },
    )
}

/// The owners of the still-active players, in join order: the turn queue.
pub open spec fn active_owners(players: Seq<PlayerDataView>) -> Seq<OwnerId>
    decreases players.len(),
{
    if players.len() == 0 {
        Seq::empty()
    } else {
        active_owners(players.drop_last()) + if players.last().status == PlayerStatus::Active {
            seq![players.last().owner]
        } else {
            Seq::empty()
        }
    }
}

proof fn lemma_active_owners_has_owner(players: Seq<PlayerDataView>)
    ensures
        forall|k: int|
            0 <= k < active_owners(players).len() ==> has_owner(
                players,
                #[trigger] active_owners(players)[k],
            ),
    decreases players.len(),
{
    if players.len() > 0 {
        let rest = players.drop_last();
        lemma_active_owners_has_owner(rest);
        assert forall|k: int|
            0 <= k < active_owners(players).len() implies has_owner(
            players,
            #[trigger] active_owners(players)[k],
        ) by {
            if k < active_owners(rest).len() {
                assert(has_owner(rest, active_owners(rest)[k]));
                let n = choose|n: int|
                    0 <= n < rest.len() && rest[n].owner == active_owners(rest)[k];
                assert(players[n].owner == active_owners(players)[k]);
            } else {
                assert(active_owners(players)[k] == players.last().owner);
                assert(players[players.len() - 1].owner == active_owners(players)[k]);
            }
        }
    }
}

/// What dealing does: only the dealer, only in ReadyToDeal, and only when
/// the shuffled deck covers two cards per player plus two for the dealer;
/// then every player gets their opening hand, the dealer gets two cards, the
/// turn queue holds the still-active players, and play begins (or goes
/// straight to the dealer if nobody is active).
pub open spec fn spec_deal(g: GameDataView, signer: OwnerId, block: u64) -> Result<
    GameDataView,
    Error,
> {
    if signer != g.config.dealer {
        Err(Error::NotDealer)
    } else if g.phase != GamePhase::ReadyToDeal {
        Err(Error::WrongPhase)
    } else {
        let d = dealt_deck(g.combined_entropy->0);
        let n = g.players.len();
        if d.len() < 2 * n + 2 {
            Err(Error::DeckExhausted)
        } else {
            let dealt = dealt_players(g.players, d);
            let queue = active_owners(dealt);
            Ok(
                GameDataView {
                    players: dealt,
                    dealer_hand: seq![d[d.len() - 1 - 2 * n], d[d.len() - 2 - 2 * n]],
                    deck: d.take(d.len() - 2 * n - 2),
                    turn_order: queue,
                    phase: if queue.len() == 0 {
                        GamePhase::DealerTurn
                    } else {
                        GamePhase::PlayerTurns
                    },
                    last_updated_at: block,
                    ..g
                },
            )
        }
    }
}

/// What one player action does, for the player at the head of the turn
/// queue: Hit draws one card and busts out of the queue past 21; Stand
/// leaves the queue; DoubleDown is only legal on a two-card hand, doubles
/// the recorded bet (saturating), draws exactly one card, and leaves the
/// queue either way. An emptied queue hands the round to the dealer.
pub open spec fn spec_player_action(
    g: GameDataView,
    owner: OwnerId,
    action: PlayerActionKind,
    block: u64,
) -> Result<(GameDataView, PlayerStatus), Error> {
    if g.phase != GamePhase::PlayerTurns {
        Err(Error::WrongPhase)
    } else if g.turn_order.len() == 0 || g.turn_order[0] != owner {
        Err(Error::NotYourTurn)
    } else if !has_owner(g.players, owner) {
        Err(Error::NotJoined)
    } else {
        let i = find_owner(g.players, owner);
        let p = g.players[i];
        match action {
            PlayerActionKind::Hit => {
                if g.deck.len() == 0 {
                    Err(Error::DeckExhausted)
                } else {
                    let hand = p.hand.push(g.deck.last());
                    let busted = spec_hand_value(hand) > 21;
                    let p2 = PlayerDataView {
                        hand: hand,
                        status: if busted {
                            PlayerStatus::Busted
                        } else {
                            p.status
                        },
                        last_action: Some(PlayerActionKind::Hit),
                        ..p
                    };
                    let queue = if busted {
                        g.turn_order.drop_first()
                    } else {
                        g.turn_order
                    };
                    Ok(
                        (
                            GameDataView {
                                players: g.players.update(i, p2),
                                deck: g.deck.drop_last(),
                                turn_order: queue,
                                phase: if queue.len() == 0 {
                                    GamePhase::DealerTurn
                                } else {
                                    g.phase
                                },
                                last_updated_at: block,
                                ..g
                            },
                            p2.status,
                        ),
                    )
                }
            },
            PlayerActionKind::Stand => {
                let p2 = PlayerDataView {
                    status: PlayerStatus::Stood,
                    last_action: Some(PlayerActionKind::Stand),
                    ..p
                };
                let queue = g.turn_order.drop_first();
                Ok(
                    (
                        GameDataView {
                            players: g.players.update(i, p2),
                            turn_order: queue,
                            phase: if queue.len() == 0 {
                                GamePhase::DealerTurn
                            } else {
                                g.phase
                            },
                            last_updated_at: block,
                            ..g
                        },
                        p2.status,
                    ),
                )
            },
            PlayerActionKind::DoubleDown => {
                if p.hand.len() != 2 {
                    Err(Error::DoubleDownNotAllowed)
                } else if g.deck.len() == 0 {
                    Err(Error::DeckExhausted)
                } else {
                    let hand = p.hand.push(g.deck.last());
                    let busted = spec_hand_value(hand) > 21;
                    let p2 = PlayerDataView {
                        hand: hand,
                        bet: if p.bet > u64::MAX / 2 {
                            u64::MAX
                        } else {
                            (2 * p.bet) as u64
                        },
                        status: if busted {
                            PlayerStatus::Busted
                        } else {
                            PlayerStatus::Stood
                        },
                        last_action: Some(PlayerActionKind::DoubleDown),
                        ..p
                    };
                    let queue = g.turn_order.drop_first();
                    Ok(
                        (
                            GameDataView {
                                players: g.players.update(i, p2),
                                deck: g.deck.drop_last(),
                                turn_order: queue,
                                phase: if queue.len() == 0 {
                                    GamePhase::DealerTurn
                                } else {
                                    g.phase
                                },
                                last_updated_at: block,
                                ..g
                            },
                            p2.status,
                        ),
                    )
                }
            },
        }
    }
}

/// The dealer's mandatory run: keep drawing from the end of the deck while
/// the hand is worth less than 17; `None` means the deck ran out first.
pub open spec fn dealer_run(hand: Seq<Card>, deck: Seq<Card>) -> Option<(Seq<Card>, Seq<Card>)>
    decreases deck.len(),
{
    if spec_hand_value(hand) >= 17 {
        Some((hand, deck))
    } else if deck.len() == 0 {
        None
    } else {
        dealer_run(hand.push(deck.last()), deck.drop_last())
    }
}

/// A settled player's outcome against the dealer's final value: busted hands
/// lose outright, a natural blackjack pays 150 percentage points, and the
/// rest compare values, with a dealer bust counting as a player win.
pub open spec fn spec_outcome(p: PlayerDataView, dealer_value: u8) -> RoundOutcome {
    if p.status == PlayerStatus::Busted {
        RoundOutcome {
            final_value: if spec_hand_value(p.hand) > 99 {
                99
            } else {
                spec_hand_value(p.hand)
            },
            dealer_value: dealer_value,
            win_multiplier: -100i32,
        }
    } else if p.status == PlayerStatus::Blackjack {
        RoundOutcome { final_value: 21, dealer_value: dealer_value, win_multiplier: 150 }
    } else {
        let pv = spec_hand_value(p.hand);
        RoundOutcome {
            final_value: pv,
            dealer_value: dealer_value,
            win_multiplier: if dealer_value > 21 || pv > dealer_value {
                100
            } else if pv == dealer_value {
                0
            } else {
                -100i32
            },
        }
    }
}

/// What resolving does: only the dealer, only once the turn queue is empty;
/// the dealer draws to 17, every player is settled with a `RoundOutcome`,
/// and the table reaches its terminal Settled phase.
pub open spec fn spec_resolve(g: GameDataView, signer: OwnerId, block: u64) -> Result<
    GameDataView,
    Error,
> {
    if signer != g.config.dealer {
        Err(Error::NotDealer)
    } else if !(g.phase == GamePhase::DealerTurn || g.phase == GamePhase::PlayerTurns) {
        Err(Error::WrongPhase)
    } else if g.turn_order.len() > 0 {
        Err(Error::PlayersStillActing)
    } else {
        match dealer_run(g.dealer_hand, g.deck) {
            None => Err(Error::DeckExhausted),
            Some(run) => {
                let dv = spec_hand_value(run.0);
                Ok(
                    GameDataView {
                        dealer_hand: run.0,
                        deck: run.1,
                        players: Seq::new(
                            g.players.len(),
                            |i: int|
                                (PlayerDataView {
                                    result: Some(spec_outcome(g.players[i], dv)),
                                    status: PlayerStatus::Settled,
                                    ..g.players[i]
                                }),
                        ),
                        phase: GamePhase::Settled,
                        last_updated_at: block,
                        ..g
                    },
                )
            },
        }
    }
}

/// What cancelling does: only the dealer, from any pre-settlement phase.
pub open spec fn spec_cancel(g: GameDataView, signer: OwnerId, block: u64) -> Result<
    GameDataView,
    Error,
> {
    if signer != g.config.dealer {
        Err(Error::NotDealer)
    } else if g.phase == GamePhase::Settled || g.phase == GamePhase::Cancelled {
        Err(Error::WrongPhase)
    } else {
        Ok(GameDataView { phase: GamePhase::Cancelled, last_updated_at: block, ..g })
    }
}

impl GameData {
    /// Store the dealer's verifiable randomness and combine the shared seed,
    /// per `spec_submit_vrf`.
    pub fn submit_vrf(
        &mut self,
        signer: OwnerId,
        output: Vec<u8>,
        proof_bytes: Vec<u8>,
        message: Vec<u8>,
        game_id: GameId,
        block: u64,
    ) -> (r: Result<(), Error>)
        requires
            old(self)@.wf(),
        ensures
            match spec_submit_vrf(
                old(self)@,
                signer,
                output@,
                proof_bytes@,
                message@,
                game_id,
                block,
            ) {
                Ok(v) => r is Ok && final(self)@ == v,
                Err(e) => r == Err::<(), Error>(e) && final(self)@ == old(self)@,
            },
            final(self)@.wf(),
    {
        let ghost old_view: GameDataView = self@;
        let output = match into_fixed::<32>(output) {
            Ok(o) => o,
            Err(e) => {
                return Err(e);
            },
        };
        if !matches!(self.phase, GamePhase::AwaitingVrf) {
            return Err(Error::WrongPhase);
        }
        if signer != self.config.dealer {
            return Err(Error::NotDealer);
        }
        let valid = verify_vrf(&self.config.vrf_public_key, &proof_bytes, &message, &output);
        if !valid {
            return Err(Error::VrfInvalid);
        }
        let combined = compute_entropy(game_id, &self.players, &output);
        if combined.is_none() {
            return Err(Error::MissingReveals);
        }
        let public_key = copy_bytes(&self.config.vrf_public_key);
        self.vrf = Some(
            VrfRecord { provider: signer, public_key, output, proof: proof_bytes, message },
        );
        self.combined_entropy = combined;
        self.phase = GamePhase::ReadyToDeal;
        self.last_updated_at = block;
        proof {
            assert(self@ =~= spec_submit_vrf(
                old_view,
                signer,
                self@.vrf->0.output,
                self@.vrf->0.proof,
                self@.vrf->0.message,
                game_id,
                block,
            )->Ok_0);
        }
        Ok(())
    }

    /// Deal the opening hands from the entropy-seeded deck, per `spec_deal`.
    pub fn deal_initial_hands(&mut self, signer: OwnerId, block: u64) -> (r: Result<(), Error>)
        requires
            old(self)@.wf(),
        ensures
            match spec_deal(old(self)@, signer, block) {
                Ok(v) => r is Ok && final(self)@ == v,
                Err(e) => r == Err::<(), Error>(e) && final(self)@ == old(self)@,
            },
            final(self)@.wf(),
    {
        let ghost old_view: GameDataView = self@;
        if signer != self.config.dealer {
            return Err(Error::NotDealer);
        }
        if !matches!(self.phase, GamePhase::ReadyToDeal) {
            return Err(Error::WrongPhase);
        }
        let mut idx: Vec<u8> = Vec::new();
        let mut k: usize = 0;
        while k < 52
            invariant
            idx@.len() == k,
            k <= 52,
            forall|i: int| 0 <= i < k ==> idx@[i] == i as u8,
            decreases 52 - k,
        {
            idx.push(k as u8);
            k += 1;
        }
        proof {
            assert(idx@ =~= idx52());
        }
        let seed: &Vec<u8> = match &self.combined_entropy {
            Some(s) => s,
            None => {
                return Err(Error::MissingReveals);
            },
        };
        let shuffled = chacha_shuffle(seed, idx);
        let ghost d: Seq<Card> = dealt_deck(old_view.combined_entropy->0);
        let mut deck: Vec<Card> = Vec::new();
        let mut k2: usize = 0;
        while k2 < shuffled.len()
            invariant
            deck@.len() == k2,
            k2 <= shuffled@.len(),
            forall|i: int| 0 <= i < k2 ==> deck@[i] == spec_from_index(shuffled@[i]),
            decreases shuffled@.len() - k2,
        {
            deck.push(Card::from_index(shuffled[k2]));
            k2 += 1;
        }
        proof {
            assert(deck@ =~= d);
        }
        let n = self.players.len();
        if deck.len() < 2 * n + 2 {
            return Err(Error::DeckExhausted);
        }
        let ghost dealt: Seq<PlayerDataView> = dealt_players(old_view.players, d);
        let mut k3: usize = 0;
        while k3 < self.players.len()
            invariant
            old(self)@.wf(),
            k3 <= self.players@.len(),
            self.players@.len() == old_view.players.len(),
            d.len() >= 2 * self.players@.len() + 2,
            deck@ == d.take(d.len() - 2 * k3),
            dealt == dealt_players(old_view.players, d),
            dealt.len() == old_view.players.len(),
            forall|i: int| 0 <= i < k3 ==> (#[trigger] self.players@[i])@ == dealt[i],
            forall|i: int|
                k3 <= i < self.players@.len() ==> (#[trigger] self.players@[i])@
                    == old_view.players[i],
            self.config == old(self).config,
            self.phase == old(self).phase,
            self.turn_order@ == old(self).turn_order@,
            self.dealer_hand@ == old(self).dealer_hand@,
            self.combined_entropy == old(self).combined_entropy,
            self.vrf == old(self).vrf,
            self.last_updated_at == old(self).last_updated_at,
            decreases self.players@.len() - k3,
        {
            let ghost deck_before: Seq<Card> = deck@;
            let c1 = crate::engine::draw_card(&mut deck);
            let c2 = crate::engine::draw_card(&mut deck);
            let mut hand: Vec<Card> = Vec::new();
            hand.push(c1);
            hand.push(c2);
            let value = crate::engine::hand_value(&hand);
            let ghost hand_view: Seq<Card> = hand@;
            let seat = &mut self.players[k3];
            seat.hand = hand;
            seat.status = if value == 21 {
                PlayerStatus::Blackjack
            } else {
                PlayerStatus::Active
            };
            proof {
                assert(c1 == d[d.len() - 1 - 2 * k3]);
                assert(c2 == d[d.len() - 2 - 2 * k3]);
                assert(hand_view =~= seq![
                    d[d.len() - 1 - 2 * (k3 as int)],
                    d[d.len() - 2 - 2 * (k3 as int)],
                ]);
                assert(deck@ =~= d.take(d.len() - 2 * (k3 + 1)));
                assert(self.players@.map_values(|p: PlayerData| p@)[k3 as int] == dealt[k3 as int]);
            }
            k3 += 1;
        }
        let dc1 = crate::engine::draw_card(&mut deck);
        let dc2 = crate::engine::draw_card(&mut deck);
        let mut dealer_hand: Vec<Card> = Vec::new();
        dealer_hand.push(dc1);
        dealer_hand.push(dc2);
        self.dealer_hand = dealer_hand;
        self.deck = deck;
        let mut queue: Vec<OwnerId> = Vec::new();
        let mut k4: usize = 0;
        while k4 < self.players.len()
            invariant
            k4 <= self.players@.len(),
            self.players@.map_values(|p: PlayerData| p@) == dealt,
            dealt.len() == self.players@.len(),
            queue@ == active_owners(dealt.take(k4 as int)),
            decreases self.players@.len() - k4,
        {
            let is_active = matches!(self.players[k4].status, PlayerStatus::Active);
            if is_active {
                queue.push(self.players[k4].owner);
            }
            proof {
                assert(dealt.take(k4 + 1).drop_last() =~= dealt.take(k4 as int));
                assert(dealt.take(k4 + 1).last() == dealt[k4 as int]);
                assert(dealt[k4 as int] == self.players@.map_values(|p: PlayerData| p@)[k4 as int]);
                assert(queue@ =~= active_owners(dealt.take(k4 + 1)));
            }
            k4 += 1;
        }
        proof {
            assert(dealt.take(dealt.len() as int) =~= dealt);
        }
        if queue.is_empty() {
            self.phase = GamePhase::DealerTurn;
        } else {
            self.phase = GamePhase::PlayerTurns;
        }
        self.turn_order = queue;
        self.last_updated_at = block;
        proof {
            let n_ghost = old_view.players.len();
            assert(self@.dealer_hand =~= seq![
                d[d.len() - 1 - 2 * n_ghost],
                d[d.len() - 2 - 2 * n_ghost],
            ]);
            assert(self@.players =~= dealt);
            assert(self@ =~= spec_deal(old_view, signer, block)->Ok_0);
            lemma_active_owners_has_owner(dealt);
            assert forall|i: int| 0 <= i < dealt.len() implies (#[trigger] dealt[i]).commitment.len()
                == 32 by {
                assert(old_view.players[i].commitment.len() == 32);
            }
        }
        Ok(())
    }

    /// Apply the head-of-queue player's move, per `spec_player_action`.
    pub fn player_action(&mut self, owner: OwnerId, action: PlayerActionKind, block: u64) -> (r:
        Result<PlayerStatus, Error>)
        requires
            old(self)@.wf(),
        ensures
            match spec_player_action(old(self)@, owner, action, block) {
                Ok(v) => r == Ok::<PlayerStatus, Error>(v.1) && final(self)@ == v.0,
                Err(e) => r == Err::<PlayerStatus, Error>(e) && final(self)@ == old(self)@,
            },
            final(self)@.wf(),
    {
        let ghost old_view: GameDataView = self@;
        if !matches!(self.phase, GamePhase::PlayerTurns) {
            return Err(Error::WrongPhase);
        }
        if self.turn_order.is_empty() {
            return Err(Error::NotYourTurn);
        }
        if self.turn_order[0] != owner {
            return Err(Error::NotYourTurn);
        }
        let found = find_player(&self.players, owner);
        proof {
            lemma_find_owner(old_view.players, owner);
        }
        let i: usize = match found {
            Some(i) => i,
            None => {
                return Err(Error::NotJoined);
            },
        };
        proof {
            assert(old_view.players[i as int] == self.players@[i as int]@);
        }
        let status: PlayerStatus;
        let mut advance: bool = false;
        match action {
            PlayerActionKind::Hit => {
                if self.deck.is_empty() {
                    return Err(Error::DeckExhausted);
                }
                let card = crate::engine::draw_card(&mut self.deck);
                let seat = &mut self.players[i];
                seat.hand.push(card);
                seat.last_action = Some(PlayerActionKind::Hit);
                let value = crate::engine::hand_value(&self.players[i].hand);
                if value > 21 {
                    let seat2 = &mut self.players[i];
                    seat2.status = PlayerStatus::Busted;
                    advance = true;
                }
                status = self.players[i].status;
            },
            PlayerActionKind::Stand => {
                let seat = &mut self.players[i];
                seat.status = PlayerStatus::Stood;
                seat.last_action = Some(PlayerActionKind::Stand);
                status = PlayerStatus::Stood;
                advance = true;
            },
            PlayerActionKind::DoubleDown => {
                if self.players[i].hand.len() != 2 {
                    return Err(Error::DoubleDownNotAllowed);
                }
                if self.deck.is_empty() {
                    return Err(Error::DeckExhausted);
                }
                let card = crate::engine::draw_card(&mut self.deck);
                let doubled = if self.players[i].bet > u64::MAX / 2 {
                    u64::MAX
                } else {
                    2 * self.players[i].bet
                };
                let seat = &mut self.players[i];
                seat.bet = doubled;
                seat.hand.push(card);
                seat.last_action = Some(PlayerActionKind::DoubleDown);
                let value = crate::engine::hand_value(&self.players[i].hand);
                let seat2 = &mut self.players[i];
                seat2.status = if value > 21 {
                    PlayerStatus::Busted
                } else {
                    PlayerStatus::Stood
                };
                status = self.players[i].status;
                advance = true;
            },
        }
        if advance {
            advance_turn(&mut self.turn_order);
        }
        if self.turn_order.is_empty() {
            self.phase = GamePhase::DealerTurn;
        }
        self.last_updated_at = block;
        proof {
            let expected = spec_player_action(old_view, owner, action, block);
            assert(self@.players =~= expected->Ok_0.0.players);
            assert(self@ =~= expected->Ok_0.0);
            assert forall|k: int|
                0 <= k < self@.turn_order.len() implies has_owner(
                self@.players,
                #[trigger] self@.turn_order[k],
            ) by {
                let prev = if old_view.turn_order.len() == self@.turn_order.len() {
                    old_view.turn_order[k]
                } else {
                    old_view.turn_order[k + 1]
                };
                assert(self@.turn_order[k] == prev);
                assert(has_owner(old_view.players, prev));
                let n = choose|n: int|
                    0 <= n < old_view.players.len() && old_view.players[n].owner == prev;
                assert(self@.players[n].owner == prev);
            }
        }
        let r = status;
        Ok(r)
    }

    /// Run the dealer's draws and settle every player, per `spec_resolve`.
    pub fn resolve_dealer(&mut self, signer: OwnerId, block: u64) -> (r: Result<(), Error>)
        requires
            old(self)@.wf(),
        ensures
            match spec_resolve(old(self)@, signer, block) {
                Ok(v) => r is Ok && final(self)@ == v,
                Err(e) => r == Err::<(), Error>(e) && final(self)@ == old(self)@,
            },
            final(self)@.wf(),
    {
        let ghost old_view: GameDataView = self@;
        if signer != self.config.dealer {
            return Err(Error::NotDealer);
        }
        let phase_ok = matches!(self.phase, GamePhase::DealerTurn | GamePhase::PlayerTurns);
        if !phase_ok {
            return Err(Error::WrongPhase);
        }
        if !self.turn_order.is_empty() {
            return Err(Error::PlayersStillActing);
        }
        let mut hand = copy_cards(&self.dealer_hand);
        let mut deck = copy_cards(&self.deck);
        let mut value = crate::engine::hand_value(&hand);
        while value < 17
            invariant
            value == spec_hand_value(hand@),
            dealer_run(old_view.dealer_hand, old_view.deck) == dealer_run(hand@, deck@),
            self@ == old_view,
            old_view.wf(),
            signer == old_view.config.dealer,
            old_view.phase == GamePhase::DealerTurn || old_view.phase == GamePhase::PlayerTurns,
            old_view.turn_order.len() == 0,
            decreases deck@.len(),
        {
            if deck.is_empty() {
                return Err(Error::DeckExhausted);
            }
            let card = crate::engine::draw_card(&mut deck);
            hand.push(card);
            value = crate::engine::hand_value(&hand);
        }
        let dealer_value = value;
        let ghost run = dealer_run(old_view.dealer_hand, old_view.deck)->0;
        let mut k: usize = 0;
        let ghost settled: Seq<PlayerDataView> = Seq::new(
            old_view.players.len(),
            |i: int|
                (PlayerDataView {
                    result: Some(spec_outcome(old_view.players[i], spec_hand_value(run.0))),
                    status: PlayerStatus::Settled,
                    ..old_view.players[i]
                }),
        );
        while k < self.players.len()
            invariant
            k <= self.players@.len(),
            self.players@.len() == old_view.players.len(),
            dealer_value == spec_hand_value(run.0),
            settled.len() == old_view.players.len(),
            settled == Seq::new(
                old_view.players.len(),
                |i: int|
                    (PlayerDataView {
                        result: Some(spec_outcome(old_view.players[i], spec_hand_value(run.0))),
                        status: PlayerStatus::Settled,
                        ..old_view.players[i]
                    }),
            ),
            forall|i: int| 0 <= i < k ==> (#[trigger] self.players@[i])@ == settled[i],
            forall|i: int|
                k <= i < self.players@.len() ==> (#[trigger] self.players@[i])@
                    == old_view.players[i],
            self.config == old(self).config,
            self.phase == old(self).phase,
            self.turn_order@ == old(self).turn_order@,
            self.dealer_hand@ == old(self).dealer_hand@,
            self.deck@ == old(self).deck@,
            self.combined_entropy == old(self).combined_entropy,
            self.vrf == old(self).vrf,
            self.last_updated_at == old(self).last_updated_at,
            decreases self.players@.len() - k,
        {
            let busted = matches!(self.players[k].status, PlayerStatus::Busted);
            let natural = matches!(self.players[k].status, PlayerStatus::Blackjack);
            let player_value = crate::engine::hand_value(&self.players[k].hand);
            let outcome: RoundOutcome = if busted {
                RoundOutcome {
                    final_value: if player_value > 99 {
                        99
                    } else {
                        player_value
                    },
                    dealer_value,
                    win_multiplier: -100,
                }
            } else if natural {
                RoundOutcome { final_value: 21, dealer_value, win_multiplier: 150 }
            } else {
                let win_multiplier: i32 = if dealer_value > 21 || player_value > dealer_value {
                    100
                } else if player_value == dealer_value {
                    0
                } else {
                    -100
                };
                RoundOutcome { final_value: player_value, dealer_value, win_multiplier }
            };
            let seat = &mut self.players[k];
            seat.result = Some(outcome);
            seat.status = PlayerStatus::Settled;
            proof {
                assert(self.players@.map_values(|p: PlayerData| p@)[k as int] == settled[k as int]);
            }
            k += 1;
        }
        self.dealer_hand = hand;
        self.deck = deck;
        self.phase = GamePhase::Settled;
        self.last_updated_at = block;
        proof {
            assert(self@.players =~= settled);
            assert(self@ =~= spec_resolve(old_view, signer, block)->Ok_0);
        }
        Ok(())
    }

    /// Cancel the table, per `spec_cancel`.
    pub fn cancel(&mut self, signer: OwnerId, block: u64) -> (r: Result<(), Error>)
        requires
            old(self)@.wf(),
        ensures
            match spec_cancel(old(self)@, signer, block) {
                Ok(v) => r is Ok && final(self)@ == v,
                Err(e) => r == Err::<(), Error>(e) && final(self)@ == old(self)@,
            },
            final(self)@.wf(),
    {
        if signer != self.config.dealer {
            return Err(Error::NotDealer);
        }
        let terminal = matches!(self.phase, GamePhase::Settled | GamePhase::Cancelled);
        if terminal {
            return Err(Error::WrongPhase);
        }
        self.phase = GamePhase::Cancelled;
        self.last_updated_at = block;
        Ok(())
    }
}

/// Drop the head of the turn queue, if any.
pub fn advance_turn(turn_order: &mut Vec<OwnerId>)
    ensures
        old(turn_order)@.len() == 0 ==> final(turn_order)@ == old(turn_order)@,
        old(turn_order)@.len() > 0 ==> final(turn_order)@ == old(turn_order)@.drop_first(),
{
    if !turn_order.is_empty() {
        turn_order.remove(0);
        proof {
            assert(turn_order@ =~= old(turn_order)@.drop_first());
        }
    }
}

/// An element-for-element copy of a card vector.
fn copy_cards(v: &Vec<Card>) -> (r: Vec<Card>)
    ensures
        r@ == v@,
{
    let mut r: Vec<Card> = Vec::new();
    let mut k: usize = 0;
    while k < v.len()
        invariant
            k <= v@.len(),
            r@ == v@.take(k as int),
        decreases v@.len() - k,
    {
        r.push(v[k]);
        proof {
            assert(r@ =~= v@.take(k + 1));
        }
        k += 1;
    }
    proof {
        assert(v@.take(v@.len() as int) =~= v@);
    }
    r
}

/// An element-for-element copy of a byte vector.
fn copy_bytes(v: &Vec<u8>) -> (r: Vec<u8>)
    ensures
        r@ == v@,
{
    let mut r: Vec<u8> = Vec::new();
    let mut k: usize = 0;
    while k < v.len()
        invariant
            k <= v@.len(),
            r@ == v@.take(k as int),
        decreases v@.len() - k,
    {
        r.push(v[k]);
        proof {
            assert(r@ =~= v@.take(k + 1));
        }
        k += 1;
    }
    proof {
        assert(v@.take(v@.len() as int) =~= v@);
    }
    r
}

/// The ASCII bytes of ":entropy".
pub fn entropy_suffix() -> (r: Vec<u8>)
    ensures
        r@ == spec_entropy_suffix(),
{
    let mut v: Vec<u8> = Vec::new();
    v.push(58);
    v.push(101);
    v.push(110);
    v.push(116);
    v.push(114);
    v.push(111);
    v.push(112);
    v.push(121);
    proof {
        assert(v@ =~= spec_entropy_suffix());
    }
    v
}

/// Whether every seated player has revealed.
pub fn all_players_revealed(players: &Vec<PlayerData>) -> (r: bool)
    ensures
        r == all_revealed(players@.map_values(|p: PlayerData| p@)),
{
    let ghost pv: Seq<PlayerDataView> = players@.map_values(|p: PlayerData| p@);
    let mut k: usize = 0;
    while k < players.len()
        invariant
            k <= players@.len(),
            pv == players@.map_values(|p: PlayerData| p@),
            pv.len() == players@.len(),
            forall|i: int| 0 <= i < k ==> (#[trigger] pv[i]).revealed_entropy is Some,
        decreases players@.len() - k,
    {
        if players[k].revealed_entropy.is_none() {
            proof {
                assert(pv[k as int] == players@[k as int]@);
            }
            return false;
        }
        proof {
            assert(pv[k as int] == players@[k as int]@);
        }
        k += 1;
    }
    true
}

/// First seat occupied by `owner`, if any.
pub fn find_player(players: &Vec<PlayerData>, owner: OwnerId) -> (r: Option<usize>)
    ensures
        match r {
            Some(i) => i < players@.len() && find_owner(
                players@.map_values(|p: PlayerData| p@),
                owner,
            ) == i as int,
            None => find_owner(players@.map_values(|p: PlayerData| p@), owner) == -1,
        },
{
    let ghost pv: Seq<PlayerDataView> = players@.map_values(|p: PlayerData| p@);
    let mut k: usize = 0;
    while k < players.len()
        invariant
            k <= players@.len(),
            pv == players@.map_values(|p: PlayerData| p@),
            pv.len() == players@.len(),
            find_from(pv, owner, 0) == find_from(pv, owner, k as int),
        decreases players@.len() - k,
    {
        if players[k].owner == owner {
            proof {
                assert(pv[k as int] == players@[k as int]@);
            }
            return Some(k);
        }
        proof {
            assert(pv[k as int] == players@[k as int]@);
        }
        k += 1;
    }
    None
}

/// The operation surface of the multiplayer table contract.
#[derive(Debug)]
pub enum Operation {
    /// Dealer creates a new blackjack table.
    CreateGame {
        max_players: u8,
        min_bet: u64,
        allow_mid_join: bool,
        vrf_public_key: Vec<u8>,
        round_timeout: Option<u64>,
    },
    /// Player joins by locking their commitment hash.
    JoinGame { game_id: GameId, bet: u64, commitment: Vec<u8> },
    /// Player reveals previously committed secret entropy.
    RevealCommitment { game_id: GameId, secret: Vec<u8> },
    /// Authorized VRF operator submits randomness with proof.
    SubmitVrf { game_id: GameId, output: Vec<u8>, proof: Vec<u8>, message: Vec<u8> },
    /// Deterministically deals cards once entropy is in place.
    DealInitialHands { game_id: GameId },
    /// Active player issues a move.
    PlayerAction { game_id: GameId, action: PlayerActionKind },
    /// Runs automatic dealer logic and final settlement.
    ResolveDealer { game_id: GameId },
    /// Dealer can cancel a game that has not settled.
    CancelGame { game_id: GameId },
}

/// What a successful operation reports back to its caller.
#[derive(Clone, Copy, Debug, PartialEq, Eq, Structural)]
pub enum ContractResponse {
    GameCreated { game_id: GameId },
    PlayerState { status: PlayerStatus },
    GameSettled { game_id: GameId },
    Acknowledged,
}

/// The registry of all tables, keyed by game id, plus the id allocator.
#[derive(Debug)]
pub struct Tables {
    pub games: Vec<(GameId, GameData)>,
    pub next_game_id: GameId,
}

#[verifier::ext_equal]
pub struct TablesView {
    pub games: Seq<(GameId, GameDataView)>,
    pub next_game_id: GameId,
}

impl View for Tables {
    type V = TablesView;

    open spec fn view(&self) -> TablesView {
        TablesView {
            games: self.games@.map_values(|e: (GameId, GameData)| (e.0, e.1@)),
            next_game_id: self.next_game_id,
        }
    }
}

/// First registry position at or after `k` holding `id`, or -1.
pub open spec fn game_find_from(games: Seq<(GameId, GameDataView)>, id: GameId, k: int) -> int
    decreases games.len() - k,
{
    if k < 0 || k >= games.len() {
        -1
    } else if games[k].0 == id {
        k
    } else {
        game_find_from(games, id, k + 1)
    }
}

/// Registry position of `id`, or -1 if no such game exists.
pub open spec fn find_game(games: Seq<(GameId, GameDataView)>, id: GameId) -> int {
    game_find_from(games, id, 0)
}

pub proof fn lemma_game_find_from(games: Seq<(GameId, GameDataView)>, id: GameId, k: int)
    requires
        0 <= k <= games.len(),
    ensures
        game_find_from(games, id, k) == -1 ==> forall|i: int|
            k <= i < games.len() ==> games[i].0 != id,
        game_find_from(games, id, k) != -1 ==> k <= game_find_from(games, id, k) < games.len()
            && games[game_find_from(games, id, k)].0 == id,
    decreases games.len() - k,
{
    if k < games.len() {
        lemma_game_find_from(games, id, k + 1);
    }
}

impl TablesView {
    /// Registry invariant: ids are unique and every game is well formed.
    pub open spec fn wf(self) -> bool {
        &&& forall|i: int, j: int| 0 <= i < j < self.games.len() ==> self.games[i].0 != self.games[j].0
        &&& forall|i: int| 0 <= i < self.games.len() ==> (#[trigger] self.games[i]).1.wf()
    }
}

/// What creating a table does: allocate the next id (wrapping), open a fresh
/// Lobby-phase game under it, and advance the allocator.
pub open spec fn spec_create_game(
    t: TablesView,
    signer: OwnerId,
    max_players: u8,
    min_bet: u64,
    allow_mid_join: bool,
    vrf_public_key: Seq<u8>,
    round_timeout: Option<u64>,
    block: u64,
) -> Result<(TablesView, GameId), Error> {
    if max_players == 0 {
        Err(Error::InvalidBet)
    } else {
        let id = t.next_game_id;
        let g = spec_new_game(
            (GameConfigView {
                dealer: signer,
                max_players: max_players,
                min_bet: min_bet,
                vrf_public_key: vrf_public_key,
                allow_mid_join: allow_mid_join,
                round_timeout: round_timeout,
            }),
            block,
        );
        let i = find_game(t.games, id);
        let games2 = if i == -1 {
            t.games.push((id, g))
        } else {
            t.games.update(i, (id, g))
        };
        Ok(
            (
                TablesView {
                    games: games2,
                    next_game_id: if t.next_game_id == u64::MAX {
                        0
                    } else {
                        (t.next_game_id + 1) as u64
                    },
                },
                id,
            ),
        )
    }
}

/// What one operation does to the whole registry: dispatch on the operation,
/// look the game up by id (failing closed when it is missing), and apply the
/// per-game transition.
pub open spec fn spec_execute(t: TablesView, op: Operation, signer: OwnerId, block: u64) -> Result<
    (TablesView, ContractResponse),
    Error,
> {
    match op {
        Operation::CreateGame { max_players, min_bet, allow_mid_join, vrf_public_key, round_timeout } => {
            match spec_create_game(
                t,
                signer,
                max_players,
                min_bet,
                allow_mid_join,
                vrf_public_key@,
                round_timeout,
                block,
            ) {
                Ok(pair) => Ok((pair.0, ContractResponse::GameCreated { game_id: pair.1 })),
                Err(e) => Err(e),
            }
        },
        Operation::JoinGame { game_id, bet, commitment } => {
            let i = find_game(t.games, game_id);
            if i == -1 {
                Err(Error::GameNotFound)
            } else {
                match spec_join(t.games[i].1, signer, bet, commitment@, block) {
                    Ok(g2) => Ok(
                        (
                            TablesView { games: t.games.update(i, (game_id, g2)), ..t },
                            ContractResponse::Acknowledged,
                        ),
                    ),
                    Err(e) => Err(e),
                }
            }
        },
        Operation::RevealCommitment { game_id, secret } => {
            let i = find_game(t.games, game_id);
            if i == -1 {
                Err(Error::GameNotFound)
            } else {
                match spec_reveal(t.games[i].1, signer, secret@, block) {
                    Ok(g2) => Ok(
                        (
                            TablesView { games: t.games.update(i, (game_id, g2)), ..t },
                            ContractResponse::Acknowledged,
                        ),
                    ),
                    Err(e) => Err(e),
                }
            }
        },
        Operation::SubmitVrf { game_id, output, proof, message } => {
            let i = find_game(t.games, game_id);
            if i == -1 {
                Err(Error::GameNotFound)
            } else {
                match spec_submit_vrf(
                    t.games[i].1,
                    signer,
                    output@,
                    proof@,
                    message@,
                    game_id,
                    block,
                ) {
                    Ok(g2) => Ok(
                        (
                            TablesView { games: t.games.update(i, (game_id, g2)), ..t },
                            ContractResponse::Acknowledged,
                        ),
                    ),
                    Err(e) => Err(e),
                }
            }
        },
        Operation::DealInitialHands { game_id } => {
            let i = find_game(t.games, game_id);
            if i == -1 {
                Err(Error::GameNotFound)
            } else {
                match spec_deal(t.games[i].1, signer, block) {
                    Ok(g2) => Ok(
                        (
                            TablesView { games: t.games.update(i, (game_id, g2)), ..t },
                            ContractResponse::Acknowledged,
                        ),
                    ),
                    Err(e) => Err(e),
                }
            }
        },
        Operation::PlayerAction { game_id, action } => {
            let i = find_game(t.games, game_id);
            if i == -1 {
                Err(Error::GameNotFound)
            } else {
                match spec_player_action(t.games[i].1, signer, action, block) {
                    Ok(pair) => Ok(
                        (
                            TablesView { games: t.games.update(i, (game_id, pair.0)), ..t },
                            ContractResponse::PlayerState { status: pair.1 },
                        ),
                    ),
                    Err(e) => Err(e),
                }
            }
        },
        Operation::ResolveDealer { game_id } => {
            let i = find_game(t.games, game_id);
            if i == -1 {
                Err(Error::GameNotFound)
            } else {
                match spec_resolve(t.games[i].1, signer, block) {
                    Ok(g2) => Ok(
                        (
                            TablesView { games: t.games.update(i, (game_id, g2)), ..t },
                            ContractResponse::GameSettled { game_id: game_id },
                        ),
                    ),
                    Err(e) => Err(e),
                }
            }
        },
        Operation::CancelGame { game_id } => {
            let i = find_game(t.games, game_id);
            if i == -1 {
                Err(Error::GameNotFound)
            } else {
                match spec_cancel(t.games[i].1, signer, block) {
                    Ok(g2) => Ok(
                        (
                            TablesView { games: t.games.update(i, (game_id, g2)), ..t },
                            ContractResponse::Acknowledged,
                        ),
                    ),
                    Err(e) => Err(e),
                }
            }
        },
    }
}

impl Tables {
    /// The empty registry with the id allocator at zero.
    pub fn new() -> (r: Tables)
        ensures
            r@.games == Seq::<(GameId, GameDataView)>::empty(),
            r@.next_game_id == 0,
            r@.wf(),
    {
        let r = Tables { games: Vec::new(), next_game_id: 0 };
        proof {
            assert(r@.games =~= Seq::<(GameId, GameDataView)>::empty());
        }
        r
    }

    /// Registry position of `id`, if any.
    fn find_index(&self, id: GameId) -> (r: Option<usize>)
        ensures
            match r {
                Some(i) => i < self.games@.len() && find_game(self@.games, id) == i as int,
                None => find_game(self@.games, id) == -1,
            },
    {
        let ghost gv: Seq<(GameId, GameDataView)> = self@.games;
        let mut k: usize = 0;
        while k < self.games.len()
            invariant
                k <= self.games@.len(),
                gv == self@.games,
                gv.len() == self.games@.len(),
                game_find_from(gv, id, 0) == game_find_from(gv, id, k as int),
            decreases self.games@.len() - k,
        {
            if self.games[k].0 == id {
                proof {
                    assert(gv[k as int].0 == self.games@[k as int].0);
                }
                return Some(k);
            }
            proof {
                assert(gv[k as int].0 == self.games@[k as int].0);
            }
            k += 1;
        }
        None
    }

    /// Apply one operation for `signer` at block height `block`, per
    /// `spec_execute`: wrong-phase, wrong-party, and missing-game attempts
    /// fail without mutating anything.
    pub fn execute(&mut self, op: Operation, signer: OwnerId, block: u64) -> (r: Result<
        ContractResponse,
        Error,
    >)
        requires
            old(self)@.wf(),
        ensures
            match spec_execute(old(self)@, op, signer, block) {
                Ok(pair) => r == Ok::<ContractResponse, Error>(pair.1) && final(self)@ == pair.0,
                Err(e) => r == Err::<ContractResponse, Error>(e) && final(self)@ == old(self)@,
            },
            final(self)@.wf(),
    {
        let ghost old_view: TablesView = self@;
        match op {
            Operation::CreateGame {
                max_players,
                min_bet,
                allow_mid_join,
                vrf_public_key,
                round_timeout,
            } => {
                let ghost key_view: Seq<u8> = vrf_public_key@;
                let game = match GameData::create(
                    signer,
                    max_players,
                    min_bet,
                    vrf_public_key,
                    allow_mid_join,
                    round_timeout,
                    block,
                ) {
                    Ok(g) => g,
                    Err(e) => {
                        return Err(e);
                    },
                };
                let id = self.next_game_id;
                self.next_game_id = if self.next_game_id == u64::MAX {
                    0
                } else {
                    self.next_game_id + 1
                };
                let found = self.find_index(id);
                match found {
                    Some(i) => {
                        self.games[i] = (id, game);
                    },
                    None => {
                        self.games.push((id, game));
                    },
                }
                proof {
                    let expected = spec_create_game(
                        old_view,
                        signer,
                        max_players,
                        min_bet,
                        allow_mid_join,
                        key_view,
                        round_timeout,
                        block,
                    )->Ok_0;
                    assert(self@.games =~= expected.0.games);
                    assert(self@ =~= expected.0);
                    lemma_game_find_from(old_view.games, id, 0);
                }
                Ok(ContractResponse::GameCreated { game_id: id })
            },
            Operation::JoinGame { game_id, bet, commitment } => {
                let i: usize = match self.find_index(game_id) {
                    Some(i) => i,
                    None => {
                        return Err(Error::GameNotFound);
                    },
                };
                proof {
                    lemma_game_find_from(old_view.games, game_id, 0);
                    assert(old_view.games[i as int] == (self.games@[i as int].0, self.games@[i as int].1@));
                }
                let entry = &mut self.games[i];
                let outcome = entry.1.join(signer, bet, commitment, block);
                proof {
                    assert(self@.games =~= old_view.games.update(i as int, (game_id, self.games@[i as int].1@)));
                }
                match outcome {
                    Ok(_) => {
                        proof {
                            assert(self@ =~= spec_execute(old_view, op, signer, block)->Ok_0.0);
                        }
                        Ok(ContractResponse::Acknowledged)
                    },
                    Err(e) => {
                        proof {
                            assert(self@.games =~= old_view.games);
                            assert(self@ =~= old_view);
                        }
                        Err(e)
                    },
                }
            },
            Operation::RevealCommitment { game_id, secret } => {
                let i: usize = match self.find_index(game_id) {
                    Some(i) => i,
                    None => {
                        return Err(Error::GameNotFound);
                    },
                };
                proof {
                    lemma_game_find_from(old_view.games, game_id, 0);
                    assert(old_view.games[i as int] == (self.games@[i as int].0, self.games@[i as int].1@));
                }
                let entry = &mut self.games[i];
                let outcome = entry.1.reveal_commitment(signer, secret, block);
                proof {
                    assert(self@.games =~= old_view.games.update(i as int, (game_id, self.games@[i as int].1@)));
                }
                match outcome {
                    Ok(_) => {
                        proof {
                            assert(self@ =~= spec_execute(old_view, op, signer, block)->Ok_0.0);
                        }
                        Ok(ContractResponse::Acknowledged)
                    },
                    Err(e) => {
                        proof {
                            assert(self@.games =~= old_view.games);
                            assert(self@ =~= old_view);
                        }
                        Err(e)
                    },
                }
            },
            Operation::SubmitVrf { game_id, output, proof: proof_bytes, message } => {
                let i: usize = match self.find_index(game_id) {
                    Some(i) => i,
                    None => {
                        return Err(Error::GameNotFound);
                    },
                };
                proof {
                    lemma_game_find_from(old_view.games, game_id, 0);
                    assert(old_view.games[i as int] == (self.games@[i as int].0, self.games@[i as int].1@));
                }
                let entry = &mut self.games[i];
                let outcome = entry.1.submit_vrf(signer, output, proof_bytes, message, game_id, block);
                proof {
                    assert(self@.games =~= old_view.games.update(i as int, (game_id, self.games@[i as int].1@)));
                }
                match outcome {
                    Ok(_) => {
                        proof {
                            assert(self@ =~= spec_execute(old_view, op, signer, block)->Ok_0.0);
                        }
                        Ok(ContractResponse::Acknowledged)
                    },
                    Err(e) => {
                        proof {
                            assert(self@.games =~= old_view.games);
                            assert(self@ =~= old_view);
                        }
                        Err(e)
                    },
                }
            },
            Operation::DealInitialHands { game_id } => {
                let i: usize = match self.find_index(game_id) {
                    Some(i) => i,
                    None => {
                        return Err(Error::GameNotFound);
                    },
                };
                proof {
                    lemma_game_find_from(old_view.games, game_id, 0);
                    assert(old_view.games[i as int] == (self.games@[i as int].0, self.games@[i as int].1@));
                }
                let entry = &mut self.games[i];
                let outcome = entry.1.deal_initial_hands(signer, block);
                proof {
                    assert(self@.games =~= old_view.games.update(i as int, (game_id, self.games@[i as int].1@)));
                }
                match outcome {
                    Ok(_) => {
                        proof {
                            assert(self@ =~= spec_execute(old_view, op, signer, block)->Ok_0.0);
                        }
                        Ok(ContractResponse::Acknowledged)
                    },
                    Err(e) => {
                        proof {
                            assert(self@.games =~= old_view.games);
                            assert(self@ =~= old_view);
                        }
                        Err(e)
                    },
                }
            },
            Operation::PlayerAction { game_id, action } => {
                let i: usize = match self.find_index(game_id) {
                    Some(i) => i,
                    None => {
                        return Err(Error::GameNotFound);
                    },
                };
                proof {
                    lemma_game_find_from(old_view.games, game_id, 0);
                    assert(old_view.games[i as int] == (self.games@[i as int].0, self.games@[i as int].1@));
                }
                let entry = &mut self.games[i];
                let outcome = entry.1.player_action(signer, action, block);
                proof {
                    assert(self@.games =~= old_view.games.update(i as int, (game_id, self.games@[i as int].1@)));
                }
                match outcome {
                    Ok(status) => {
                        proof {
                            assert(self@ =~= spec_execute(old_view, op, signer, block)->Ok_0.0);
                        }
                        Ok(ContractResponse::PlayerState { status })
                    },
                    Err(e) => {
                        proof {
                            assert(self@.games =~= old_view.games);
                            assert(self@ =~= old_view);
                        }
                        Err(e)
                    },
                }
            },
            Operation::ResolveDealer { game_id } => {
                let i: usize = match self.find_index(game_id) {
                    Some(i) => i,
                    None => {
                        return Err(Error::GameNotFound);
                    },
                };
                proof {
                    lemma_game_find_from(old_view.games, game_id, 0);
                    assert(old_view.games[i as int] == (self.games@[i as int].0, self.games@[i as int].1@));
                }
                let entry = &mut self.games[i];
                let outcome = entry.1.resolve_dealer(signer, block);
                proof {
                    assert(self@.games =~= old_view.games.update(i as int, (game_id, self.games@[i as int].1@)));
                }
                match outcome {
                    Ok(_) => {
                        proof {
                            assert(self@ =~= spec_execute(old_view, op, signer, block)->Ok_0.0);
                        }
                        Ok(ContractResponse::GameSettled { game_id })
                    },
                    Err(e) => {
                        proof {
                            assert(self@.games =~= old_view.games);
                            assert(self@ =~= old_view);
                        }
                        Err(e)
                    },
                }
            },
            Operation::CancelGame { game_id } => {
                let i: usize = match self.find_index(game_id) {
                    Some(i) => i,
                    None => {
                        return Err(Error::GameNotFound);
                    },
                };
                proof {
                    lemma_game_find_from(old_view.games, game_id, 0);
                    assert(old_view.games[i as int] == (self.games@[i as int].0, self.games@[i as int].1@));
                }
                let entry = &mut self.games[i];
                let outcome = entry.1.cancel(signer, block);
                proof {
                    assert(self@.games =~= old_view.games.update(i as int, (game_id, self.games@[i as int].1@)));
                }
                match outcome {
                    Ok(_) => {
                        proof {
                            assert(self@ =~= spec_execute(old_view, op, signer, block)->Ok_0.0);
                        }
                        Ok(ContractResponse::Acknowledged)
                    },
                    Err(e) => {
                        proof {
                            assert(self@.games =~= old_view.games);
                            assert(self@ =~= old_view);
                        }
                        Err(e)
                    },
                }
            },
        }
    }
}

} // verus!
