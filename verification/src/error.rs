//! The failure taxonomy shared by every game: validation failures (wrong
//! phase, bad bet, short balance), integrity failures (commitment or VRF
//! mismatch, bad action log, identity mismatch), resource exhaustion (the
//! deck ran out), and double-settlement attempts (no matching pending game).
//! Every one aborts its operation with no state change.

use vstd::prelude::*;

verus! {

#[derive(Clone, Copy, Debug, PartialEq, Eq, Structural)]
pub enum Error {
    /// The operation is not legal in the table's current phase.
    WrongPhase,
    /// The table does not admit new players right now.
    NotAcceptingPlayers,
    /// The table already holds its configured maximum of players.
    TableFull,
    /// The bet is below the table minimum or not among the allowed sizes.
    BetBelowMinimum,
    /// The signer already joined this game.
    AlreadyJoined,
    /// The signer is not part of this game.
    NotJoined,
    /// No game with this id exists.
    GameNotFound,
    /// Only the dealer may perform this operation.
    NotDealer,
    /// It is not this player's turn.
    NotYourTurn,
    /// The revealed secret does not hash to the stored commitment.
    CommitmentMismatch,
    /// The claimed VRF output is not reproduced by the verification function.
    VrfInvalid,
    /// Not every joined player has revealed; the seed cannot be combined.
    MissingReveals,
    /// A fixed-length byte field had the wrong length.
    WrongLength,
    /// The balance cannot cover the requested debit.
    InsufficientBalance,
    /// The deck ran out of cards mid-round; fatal to the round.
    DeckExhausted,
    /// Double down is only legal on the initial two-card hand.
    DoubleDownNotAllowed,
    /// Players still have actions to take before the dealer resolves.
    PlayersStillActing,
    /// The reporting identity does not match the escrowed player.
    IdentityMismatch,
    /// A bet's selection is out of range for its type.
    InvalidBet,
    /// At least one bet must be placed.
    EmptyBets,
    /// The reported action log does not describe one complete player turn.
    InvalidActionLog,
    /// A round is already in progress.
    RoundActive,
    /// No round is in progress.
    NoActiveRound,
}

} // verus!
