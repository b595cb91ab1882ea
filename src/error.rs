//! Error codes of the two settlement programs.

use vstd::prelude::*;

verus! {

/// Failures of commit-and-claim settlement.
#[derive(PartialEq, Eq, Structural, Clone, Copy, Debug)]
pub enum ErrorCode {
    /// The caller is not the governor.
    Unauthorized,
    /// A record for this cycle index already exists.
    CycleAlreadyInitialized,
    /// The inclusion path does not lead to the committed root, or the claim
    /// slot lies outside the cycle's bitmap.
    InvalidMerkleProof,
    /// The claim slot was already settled.
    ClaimAlreadyProcessed,
    /// The absolute delta exceeds the per-peer cap of a cycle.
    DeltaExceedsPerPeerCap,
    /// The declared total exceeds the points allowed per cycle.
    TotalPointsExceedsCycleCap,
    /// The ledger does not hold enough points for the conversion.
    InsufficientPointsToConvert,
    /// The payer's token balance does not cover a transfer.
    InsufficientTokenBalance,
    /// A checked computation left its integer range.
    MathOverflow,
    /// The cycle record does not belong to the claimed cycle.
    InvalidCycle,
    /// The ledger record belongs to another owner.
    WrongLedgerOwner,
    /// The membership record belongs to another owner.
    WrongMembershipOwner,
}

/// Failures of proportional settlement.
#[derive(PartialEq, Eq, Structural, Clone, Copy, Debug)]
pub enum SentinelError {
    /// A checked computation left its integer range.
    Overflow,
    /// A participant involved is not an active peer.
    NotPeer,
    /// The cycle duration has not elapsed yet.
    CycleNotEnded,
    /// The participant, karma and account lists do not match up.
    InvalidInput,
    /// A reward account is missing.
    MissingAccount,
    /// An account does not match the one its role requires.
    InvalidAccount,
    /// The content mint is not a zero-decimal mint controlled by its creator.
    InvalidNftMint,
    /// A peer engaged with their own content.
    CannotLikeSelf,
    /// The caller is not the authority.
    Unauthorized,
    /// The actor already engaged with this content.
    AlreadyLiked,
}

} // verus!
