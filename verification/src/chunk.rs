//! One chunk of the parameter set: its exclusive lock, and the dense,
//! zero-based sequence of contributions made to it. Contribution 0 is
//! the initialization output of the coordinator and is verified from
//! the start; after it, a contribution is appended by a contributor and
//! then verified by a verifier before the next one may be accepted.

use vstd::prelude::*;

use crate::contribution::{Contribution, ContributionV};
use crate::errors::CoordinatorError;
use crate::locator::ContributionLocator;
use crate::participant::{Participant, ParticipantV};

verus! {

/// The mathematical value of a [`Chunk`].
pub struct ChunkV {
    pub chunk_id: u64,
    pub lock_holder: Option<ParticipantV>,
    pub contributions: Seq<ContributionV>,
}

impl ChunkV {
    /// Well-formedness of a chunk.
    ///
    /// Contribution ids are dense and zero-based: the id of a
    /// contribution is its index. The first record is the verified
    /// initialization output; every later one names its contributor.
    /// Because verification of a contribution precedes acceptance of
    /// the next, every contribution but the last is verified.
    pub open spec fn wf(self) -> bool {
        &&& self.contributions.len() >= 1
        &&& self.contributions[0].is_initial()
        &&& forall|i: int|
            0 < i < self.contributions.len() ==> !(#[trigger] self.contributions[i]).is_initial()
        &&& forall|i: int|
            0 <= i < self.contributions.len() ==> (#[trigger] self.contributions[i]).wf()
        &&& forall|i: int|
            0 <= i < self.contributions.len() - 1 ==> (#[trigger] self.contributions[i]).verified
    }

    /// The id of the latest contribution: ids are dense, so it is the
    /// index of the last record.
    pub open spec fn current_contribution_id(self) -> int {
        self.contributions.len() - 1
    }

    /// The latest contribution.
    pub open spec fn last_contribution(self) -> ContributionV {
        self.contributions.last()
    }

    /// True when the latest contribution still awaits its verifier, so
    /// the pending slot of this chunk belongs to a verifier.
    pub open spec fn pending_verification(self) -> bool {
        !self.last_contribution().verified
    }

    /// A chunk is complete when it holds one accepted and verified
    /// contribution per expected contributor, after the initialization
    /// record.
    pub open spec fn is_complete(self, expected_contributions: int) -> bool {
        &&& self.contributions.len() == expected_contributions + 1
        &&& !self.pending_verification()
    }

    /// True when the participant with the given public key already has
    /// a contribution recorded in this chunk.
    pub open spec fn has_contributed(self, id: Seq<char>) -> bool {
        exists|i: int|
            0 <= i < self.contributions.len() && (#[trigger] self.contributions[i]).contributor_id
                == Some(id)
    }

    /// True when the given participant holds the lock of this chunk.
    pub open spec fn locked_by(self, p: ParticipantV) -> bool {
        self.lock_holder == Some(p)
    }

    /// The contribution id the pending slot of this chunk is for: the
    /// next index when the latest contribution is verified, the latest
    /// index itself while it still awaits verification. A complete
    /// chunk has no pending slot.
    pub open spec fn spec_next_contribution_id(self, expected_contributions: int) -> Result<
        int,
        CoordinatorError,
    > {
        if self.is_complete(expected_contributions) {
            Err(CoordinatorError::ContributionsComplete)
        } else if self.pending_verification() {
            Ok(self.contributions.len() - 1)
        } else {
            Ok(self.contributions.len() as int)
        }
    }
}

/// One chunk of the round, carrying its lock and its contributions.
#[derive(Debug)]
pub struct Chunk {
    pub chunk_id: u64,
    pub lock_holder: Option<Participant>,
    pub contributions: Vec<Contribution>,
}

impl View for Chunk {
    type V = ChunkV;

    open spec fn view(&self) -> ChunkV {
        ChunkV {
            chunk_id: self.chunk_id,
            lock_holder: self.lock_holder.deep_view(),
            contributions: self.contributions.deep_view(),
        }
    }
}

impl DeepView for Chunk {
    type V = ChunkV;

    open spec fn deep_view(&self) -> ChunkV {
        self.view()
    }
}

impl Clone for Chunk {
    fn clone(&self) -> (res: Self)
        ensures
            res@ == self@,
    {
        let lock_holder = self.lock_holder.clone();
        proof {
            if self.lock_holder is Some {
                let a = self.lock_holder->Some_0;
                let b = lock_holder->Some_0;
                assert(cloned::<Participant>(a, b));
                assert(b@ == a@);
            }
            assert(lock_holder.deep_view() == self.lock_holder.deep_view());
        }
        let r = Chunk {
            chunk_id: self.chunk_id,
            lock_holder,
            contributions: self.contributions.clone(),
        };
        proof {
            assert(r@.contributions =~= self@.contributions);
        }
        r
    }
}

impl Chunk {
    /// A fresh chunk holding only the verified initialization record.
    pub fn new(chunk_id: u64, verifier_id: String, verified_location: ContributionLocator) -> (r:
        Chunk)
        ensures
            r@ == (ChunkV {
                chunk_id,
                lock_holder: None,
                contributions: seq![
                    ContributionV {
                        contributor_id: None,
                        contributed_location: None,
                        verifier_id: Some(verifier_id@),
                        verified_location: Some(verified_location),
                        verified: true,
                    },
                ],
            }),
            r@.wf(),
    {
        let initial = Contribution::new_initial(verifier_id, verified_location);
        let mut contributions: Vec<Contribution> = Vec::new();
        contributions.push(initial);
        let r = Chunk { chunk_id, lock_holder: None, contributions };
        proof {
            assert(r@.contributions =~= seq![
                ContributionV {
                    contributor_id: None,
                    contributed_location: None,
                    verifier_id: Some(verifier_id@),
                    verified_location: Some(verified_location),
                    verified: true,
                },
            ]);
        }
        r
    }

    /// The id of this chunk inside its round.
    pub fn chunk_id(&self) -> (r: u64)
        ensures
            r == self@.chunk_id,
    {
        self.chunk_id
    }

    /// The id of the latest contribution of this chunk.
    pub fn current_contribution_id(&self) -> (r: u64)
        requires
            self@.wf(),
        ensures
            r == self@.current_contribution_id(),
    {
        (self.contributions.len() - 1) as u64
    }

    /// Returns the contribution with the given id, or
    /// `ContributionMissing` when no such id has been accepted.
    pub fn get_contribution(&self, contribution_id: u64) -> (r: Result<
        &Contribution,
        CoordinatorError,
    >)
        ensures
            match r {
                Ok(c) => contribution_id < self@.contributions.len() && c@
                    == self@.contributions[contribution_id as int],
                Err(e) => contribution_id >= self@.contributions.len() && e
                    == CoordinatorError::ContributionMissing,
            },
    {
        if contribution_id < self.contributions.len() as u64 {
            Ok(&self.contributions[contribution_id as usize])
        } else {
            Err(CoordinatorError::ContributionMissing)
        }
    }

    /// True when the chunk holds one verified contribution per expected
    /// contributor.
    pub fn is_complete(&self, expected_contributions: u64) -> (r: bool)
        requires
            self@.wf(),
        ensures
            r == self@.is_complete(expected_contributions as int),
    {
        let n = self.contributions.len();
        if (n - 1) as u64 != expected_contributions {
            return false;
        }
        self.contributions[n - 1].is_verified()
    }

    /// True when the latest contribution still awaits verification.
    pub fn pending_verification(&self) -> (r: bool)
        requires
            self@.wf(),
        ensures
            r == self@.pending_verification(),
    {
        !self.contributions[self.contributions.len() - 1].is_verified()
    }

    /// The contribution id of the pending slot, or
    /// `ContributionsComplete` when the chunk is complete.
    pub fn next_contribution_id(&self, expected_contributions: u64) -> (r: Result<
        u64,
        CoordinatorError,
    >)
        requires
            self@.wf(),
        ensures
            match r {
                Ok(id) => Ok::<int, CoordinatorError>(id as int) == self@.spec_next_contribution_id(
                    expected_contributions as int,
                ),
                Err(e) => Err::<int, CoordinatorError>(e) == self@.spec_next_contribution_id(
                    expected_contributions as int,
                ),
            },
    {
        if self.is_complete(expected_contributions) {
            Err(CoordinatorError::ContributionsComplete)
        } else if self.pending_verification() {
            Ok((self.contributions.len() - 1) as u64)
        } else {
            Ok(self.contributions.len() as u64)
        }
    }

    /// True when the participant with the given public key already has
    /// a contribution in this chunk.
    pub fn has_contributed(&self, id: &String) -> (r: bool)
        ensures
            r == self@.has_contributed(id@),
    {
        let n = self.contributions.len();
        let mut i: usize = 0;
        while i < n
            invariant
                0 <= i <= n,
                n == self.contributions.len(),
                forall|j: int|
                    0 <= j < i ==> (#[trigger] self@.contributions[j]).contributor_id != Some(id@),
            decreases n - i,
        {
            match &self.contributions[i].contributor_id {
                Some(cid) => {
                    if *cid == *id {
                        assert(self@.contributions[i as int].contributor_id == Some(id@));
                        return true;
                    }
                },
                None => {},
            }
            i = i + 1;
        }
        false
    }

    /// True when some participant holds the lock of this chunk.
    pub fn is_locked(&self) -> (r: bool)
        ensures
            r == (self@.lock_holder is Some),
    {
        self.lock_holder.is_some()
    }

    /// True when the given participant holds the lock of this chunk.
    pub fn is_locked_by(&self, participant: &Participant) -> (r: bool)
        ensures
            r == self@.locked_by(participant@),
    {
        match &self.lock_holder {
            Some(holder) => holder.matches(participant),
            None => false,
        }
    }
}

/// The chunk lock is a mutual-exclusion token: whenever two
/// participants both hold the lock of one chunk, they are the same
/// participant.
pub proof fn lemma_lock_holder_exclusive(chunk: ChunkV, p: ParticipantV, q: ParticipantV)
    requires
        chunk.locked_by(p),
        chunk.locked_by(q),
    ensures
        p == q,
{
}

} // verus!
