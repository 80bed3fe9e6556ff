//! The single error sum type shared by every component of the
//! coordinator. Each variant names one failure kind; boundary layers
//! map kinds one-to-one onto wire errors and nothing is recovered
//! silently.

use vstd::prelude::*;

verus! {

/// Every failure the coordinator core can report.
#[derive(Clone, Copy, Debug, PartialEq, Eq, Structural)]
pub enum CoordinatorError {
    ChunkAlreadyComplete,
    ChunkAlreadyVerified,
    ChunkIdMismatch,
    ChunkLockAlreadyAcquired,
    ChunkMissing,
    ChunkMissingVerification,
    ChunkNotLocked,
    ChunkNotLockedOrByWrongParticipant,
    ChunkVerifierMissing,
    ContributionAlreadyAssignedVerifier,
    ContributionAlreadyVerified,
    ContributionFileSizeMismatch,
    ContributionHashMismatch,
    ContributionHashSizeInvalid,
    ContributionIdIsNonzero,
    ContributionIdMismatch,
    ContributionLocatorAlreadyExists,
    ContributionLocatorMissing,
    ContributionMissing,
    ContributionMissingVerifier,
    ContributionVerificationFailed,
    ContributionsComplete,
    ContributorAlreadyContributed,
    ExpectedContributor,
    ExpectedVerifier,
    InitializationFailed,
    InvalidSeed,
    MissingVerifierIds,
    NumberOfChunksInvalid,
    NumberOfChunkVerifierIdsInvalid,
    NumberOfContributionsDiffer,
    ParticipantAlreadyAdded,
    ParticipantBanned,
    ParticipantIpCapacityReached,
    ParticipantMissing,
    ParticipantNotActive,
    ParticipantNoPendingTasks,
    RoundAggregationFailed,
    RoundAlreadyInitialized,
    RoundDirectoryMissing,
    RoundDoesNotExist,
    RoundHeightIsZero,
    RoundHeightMismatch,
    RoundLocatorAlreadyExists,
    RoundLocatorMissing,
    RoundNotComplete,
    StorageFailed,
    UnauthorizedChunkContributor,
    UnauthorizedChunkVerifier,
    VerificationFailed,
    VerificationOnContributionIdZero,
}

} // verus!
