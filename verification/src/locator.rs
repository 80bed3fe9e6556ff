//! Locators address the binary artifacts of the ceremony: structured
//! records naming a round, a chunk and a contribution, stable across
//! restarts. File paths are derived from them only at the edge of the
//! system.

use vstd::prelude::*;

verus! {

/// The address of one contribution artifact:
/// `round_<h>/chunk_<c>/contribution_<i>`, with `is_verified` selecting
/// the `.verified` sibling produced by the verifier.
#[derive(Clone, Copy, Debug, PartialEq, Eq, Structural)]
pub struct ContributionLocator {
    pub round_height: u64,
    pub chunk_id: u64,
    pub contribution_id: u64,
    pub is_verified: bool,
}

impl DeepView for ContributionLocator {
    type V = ContributionLocator;

    open spec fn deep_view(&self) -> ContributionLocator {
        *self
    }
}

impl ContributionLocator {
    /// Builds a locator from its four coordinates.
    pub fn new(round_height: u64, chunk_id: u64, contribution_id: u64, is_verified: bool) -> (r:
        ContributionLocator)
        ensures
            r == (ContributionLocator { round_height, chunk_id, contribution_id, is_verified }),
    {
        ContributionLocator { round_height, chunk_id, contribution_id, is_verified }
    }

    /// The round this locator addresses.
    pub fn round_height(&self) -> (r: u64)
        ensures
            r == self.round_height,
    {
        self.round_height
    }

    /// The chunk this locator addresses.
    pub fn chunk_id(&self) -> (r: u64)
        ensures
            r == self.chunk_id,
    {
        self.chunk_id
    }

    /// The contribution this locator addresses.
    pub fn contribution_id(&self) -> (r: u64)
        ensures
            r == self.contribution_id,
    {
        self.contribution_id
    }

    /// Whether the locator addresses the verified copy.
    pub fn is_verified(&self) -> (r: bool)
        ensures
            r == self.is_verified,
    {
        self.is_verified
    }
}

/// The address of the signature stored beside a contribution artifact:
/// `round_<h>/chunk_<c>/contribution_<i>.signature`.
#[derive(Clone, Copy, Debug, PartialEq, Eq, Structural)]
pub struct ContributionSignatureLocator {
    pub round_height: u64,
    pub chunk_id: u64,
    pub contribution_id: u64,
    pub is_verified: bool,
}

impl DeepView for ContributionSignatureLocator {
    type V = ContributionSignatureLocator;

    open spec fn deep_view(&self) -> ContributionSignatureLocator {
        *self
    }
}

impl ContributionSignatureLocator {
    /// Builds a signature locator from its four coordinates.
    pub fn new(round_height: u64, chunk_id: u64, contribution_id: u64, is_verified: bool) -> (r:
        ContributionSignatureLocator)
        ensures
            r == (ContributionSignatureLocator {
                round_height,
                chunk_id,
                contribution_id,
                is_verified,
            }),
    {
        ContributionSignatureLocator { round_height, chunk_id, contribution_id, is_verified }
    }
}

/// A unit of work for a contributor: one contribution slot of one chunk.
#[derive(Clone, Copy, Debug, PartialEq, Eq, Structural)]
pub struct Task {
    pub chunk_id: u64,
    pub contribution_id: u64,
}

impl DeepView for Task {
    type V = Task;

    open spec fn deep_view(&self) -> Task {
        *self
    }
}

impl Task {
    /// Builds a task from its chunk and contribution ids.
    pub fn new(chunk_id: u64, contribution_id: u64) -> (r: Task)
        ensures
            r == (Task { chunk_id, contribution_id }),
    {
        Task { chunk_id, contribution_id }
    }
}

/// What a contributor is handed when it acquires a chunk lock: where the
/// current verified challenge lives, where its own contribution must be
/// written, and where the accompanying file signature belongs.
#[derive(Clone, Copy, Debug, PartialEq, Eq, Structural)]
pub struct LockedLocators {
    pub current_contribution: ContributionLocator,
    pub next_contribution: ContributionLocator,
    pub next_contribution_signature: ContributionSignatureLocator,
}

impl LockedLocators {
    /// The locator of the challenge to download: the verified copy of
    /// the latest contribution.
    pub fn current_contribution(&self) -> (r: ContributionLocator)
        ensures
            r == self.current_contribution,
    {
        self.current_contribution
    }

    /// The locator the new contribution must be uploaded to.
    pub fn next_contribution(&self) -> (r: ContributionLocator)
        ensures
            r == self.next_contribution,
    {
        self.next_contribution
    }

    /// The locator the contribution file signature must be uploaded to.
    pub fn next_contribution_file_signature(&self) -> (r: ContributionSignatureLocator)
        ensures
            r == self.next_contribution_signature,
    {
        self.next_contribution_signature
    }
}

} // verus!
