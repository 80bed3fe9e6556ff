//! One round of the ceremony: the authorized participants, one chunk
//! per partition of the parameter set, and the transitions that
//! acquire chunk locks, accept contributions and mark them verified.

use vstd::prelude::*;

use crate::chunk::{Chunk, ChunkV};
use crate::contribution::{Contribution, ContributionV};
use crate::errors::CoordinatorError;
use crate::locator::ContributionLocator;
use crate::participant::{Participant, ParticipantV};

verus! {

/// The mathematical value of a [`Round`].
pub struct RoundV {
    pub height: u64,
    pub started_at: u64,
    pub contributors: Seq<ParticipantV>,
    pub verifiers: Seq<ParticipantV>,
    pub chunk_verifiers: Seq<ParticipantV>,
    pub chunks: Seq<ChunkV>,
}

impl RoundV {
    /// Well-formedness of a round.
    ///
    /// There is one chunk verifier per chunk and at least one
    /// contributor; every chunk is well-formed, sits at the index its
    /// id names, and never holds more contributions than the round
    /// expects; every participant list holds the advertised role.
    pub open spec fn wf(self) -> bool {
        &&& self.chunk_verifiers.len() == self.chunks.len()
        &&& self.contributors.len() >= 1
        &&& forall|i: int|
            0 <= i < self.chunks.len() ==> (#[trigger] self.chunks[i]).chunk_id == i
        &&& forall|i: int| 0 <= i < self.chunks.len() ==> (#[trigger] self.chunks[i]).wf()
        &&& forall|i: int|
            0 <= i < self.chunks.len() ==> (#[trigger] self.chunks[i]).contributions.len()
                <= self.contributors.len() + 1
        &&& forall|i: int|
            0 <= i < self.contributors.len() ==> (#[trigger] self.contributors[i]).is_contributor()
        &&& forall|i: int|
            0 <= i < self.verifiers.len() ==> (#[trigger] self.verifiers[i]).is_verifier()
        &&& forall|i: int|
            0 <= i < self.chunk_verifiers.len() ==> (
            #[trigger] self.chunk_verifiers[i]).is_verifier()
    }

    /// True when the participant is in the contributor list of this
    /// round.
    pub open spec fn authorized_contributor(self, p: ParticipantV) -> bool {
        self.contributors.contains(p)
    }

    /// True when the participant is in the verifier list of this round.
    pub open spec fn authorized_verifier(self, p: ParticipantV) -> bool {
        self.verifiers.contains(p)
    }

    /// A round is complete when every chunk holds one verified
    /// contribution per contributor.
    pub open spec fn is_complete(self) -> bool {
        forall|i: int|
            0 <= i < self.chunks.len() ==> (#[trigger] self.chunks[i]).is_complete(
                self.contributors.len() as int,
            )
    }

    /// This round with one chunk's lock holder replaced.
    pub open spec fn with_chunk_lock(self, chunk_id: int, holder: Option<ParticipantV>) -> RoundV {
        RoundV {
            chunks: self.chunks.update(
                chunk_id,
                ChunkV { lock_holder: holder, ..self.chunks[chunk_id] },
            ),
            ..self
        }
    }

    /// What `try_lock_chunk` decides: who may take the lock of which
    /// chunk, and the error every refused caller receives.
    ///
    /// A lock is granted only when nobody holds it, the caller's role
    /// matches the pending slot of the chunk (a contributor locks a
    /// chunk whose latest contribution is verified, a verifier one
    /// whose latest contribution awaits verification), the caller is
    /// authorized for the round, and a contributor has not already
    /// contributed to the chunk.
    pub open spec fn spec_try_lock_chunk(self, chunk_id: u64, p: ParticipantV) -> Result<
        RoundV,
        CoordinatorError,
    > {
        if chunk_id >= self.chunks.len() {
            Err(CoordinatorError::ChunkMissing)
        } else {
            let chunk = self.chunks[chunk_id as int];
            if chunk.lock_holder is Some {
                Err(CoordinatorError::ChunkLockAlreadyAcquired)
            } else if p.is_contributor() {
                if !self.authorized_contributor(p) {
                    Err(CoordinatorError::UnauthorizedChunkContributor)
                } else if chunk.is_complete(self.contributors.len() as int) {
                    Err(CoordinatorError::ChunkAlreadyComplete)
                } else if chunk.pending_verification() {
                    Err(CoordinatorError::UnauthorizedChunkContributor)
                } else if chunk.has_contributed(p.id()) {
                    Err(CoordinatorError::ContributorAlreadyContributed)
                } else {
                    Ok(self.with_chunk_lock(chunk_id as int, Some(p)))
                }
            } else {
                if !self.authorized_verifier(p) {
                    Err(CoordinatorError::UnauthorizedChunkVerifier)
                } else if !chunk.pending_verification() {
                    Err(CoordinatorError::ChunkAlreadyVerified)
                } else {
                    Ok(self.with_chunk_lock(chunk_id as int, Some(p)))
                }
            }
        }
    }

    /// What `add_contribution` decides: a contribution is appended only
    /// by the authorized contributor holding the chunk lock, under the
    /// exact pending contribution id, and never while the previous
    /// contribution still awaits verification. Accepting it releases
    /// the lock.
    pub open spec fn spec_add_contribution(
        self,
        chunk_id: u64,
        contribution_id: u64,
        p: ParticipantV,
        locator: ContributionLocator,
    ) -> Result<RoundV, CoordinatorError> {
        if chunk_id >= self.chunks.len() {
            Err(CoordinatorError::ChunkMissing)
        } else {
            let chunk = self.chunks[chunk_id as int];
            if !p.is_contributor() {
                Err(CoordinatorError::ExpectedContributor)
            } else if !self.authorized_contributor(p) {
                Err(CoordinatorError::UnauthorizedChunkContributor)
            } else if !chunk.locked_by(p) {
                Err(CoordinatorError::ChunkNotLockedOrByWrongParticipant)
            } else if chunk.pending_verification() {
                Err(CoordinatorError::ChunkMissingVerification)
            } else if chunk.contributions.len() >= self.contributors.len() + 1 {
                Err(CoordinatorError::ContributionsComplete)
            } else if contribution_id != chunk.contributions.len() {
                Err(CoordinatorError::ContributionIdMismatch)
            } else {
                Ok(
                    RoundV {
                        chunks: self.chunks.update(
                            chunk_id as int,
                            ChunkV {
                                lock_holder: None,
                                contributions: chunk.contributions.push(
                                    ContributionV {
                                        contributor_id: Some(p.id()),
                                        contributed_location: Some(locator),
                                        verifier_id: None,
                                        verified_location: None,
                                        verified: false,
                                    },
                                ),
                                ..chunk
                            },
                        ),
                        ..self
                    },
                )
            }
        }
    }

    /// What `verify_contribution` decides: the latest contribution of a
    /// chunk is marked verified only by the verifier holding the chunk
    /// lock, never twice, and never for the initialization record.
    /// Marking it releases the lock.
    pub open spec fn spec_verify_contribution(
        self,
        chunk_id: u64,
        contribution_id: u64,
        verifier: ParticipantV,
        verified_location: ContributionLocator,
    ) -> Result<RoundV, CoordinatorError> {
        if chunk_id >= self.chunks.len() {
            Err(CoordinatorError::ChunkMissing)
        } else {
            let chunk = self.chunks[chunk_id as int];
            if !verifier.is_verifier() {
                Err(CoordinatorError::ExpectedVerifier)
            } else if !chunk.locked_by(verifier) {
                Err(CoordinatorError::ChunkNotLockedOrByWrongParticipant)
            } else if contribution_id >= chunk.contributions.len() {
                Err(CoordinatorError::ContributionMissing)
            } else if contribution_id == 0 {
                Err(CoordinatorError::VerificationOnContributionIdZero)
            } else if chunk.contributions[contribution_id as int].verified {
                Err(CoordinatorError::ContributionAlreadyVerified)
            } else {
                Ok(
                    RoundV {
                        chunks: self.chunks.update(
                            chunk_id as int,
                            ChunkV {
                                lock_holder: None,
                                contributions: chunk.contributions.update(
                                    contribution_id as int,
                                    ContributionV {
                                        verifier_id: Some(verifier.id()),
                                        verified_location: Some(verified_location),
                                        verified: true,
                                        ..chunk.contributions[contribution_id as int]
                                    },
                                ),
                                ..chunk
                            },
                        ),
                        ..self
                    },
                )
            }
        }
    }
}

/// The shape of a freshly created round: the supplied participants,
/// and one fresh chunk per chunk verifier, each holding only its
/// verified initialization record, whose verified copy lives at
/// contribution zero of this height.
pub open spec fn spec_new_round_form(
    num_chunks: int,
    height: u64,
    started_at: u64,
    contributors: Seq<ParticipantV>,
    verifiers: Seq<ParticipantV>,
    chunk_verifiers: Seq<ParticipantV>,
) -> RoundV {
    RoundV {
        height,
        started_at,
        contributors,
        verifiers,
        chunk_verifiers,
        chunks: Seq::new(
            num_chunks as nat,
            |c: int|
                ChunkV {
                    chunk_id: c as u64,
                    lock_holder: None,
                    contributions: seq![
                        ContributionV {
                            contributor_id: None,
                            contributed_location: None,
                            verifier_id: Some(chunk_verifiers[c].id()),
                            verified_location: Some(
                                ContributionLocator {
                                    round_height: height,
                                    chunk_id: c as u64,
                                    contribution_id: 0,
                                    is_verified: true,
                                },
                            ),
                            verified: true,
                        },
                    ],
                },
        ),
    }
}

/// What `Round::new` decides: the round is created only from a
/// non-empty chunk set, one chunk verifier per chunk, non-empty
/// contributor and verifier lists, and participants whose roles match
/// their lists.
pub open spec fn spec_round_new(
    num_chunks: int,
    height: u64,
    started_at: u64,
    contributors: Seq<ParticipantV>,
    verifiers: Seq<ParticipantV>,
    chunk_verifiers: Seq<ParticipantV>,
) -> Result<RoundV, CoordinatorError> {
    if num_chunks == 0 {
        Err(CoordinatorError::NumberOfChunksInvalid)
    } else if chunk_verifiers.len() != num_chunks {
        Err(CoordinatorError::NumberOfChunkVerifierIdsInvalid)
    } else if contributors.len() == 0 {
        Err(CoordinatorError::ExpectedContributor)
    } else if verifiers.len() == 0 {
        Err(CoordinatorError::ExpectedVerifier)
    } else if !(forall|i: int|
        0 <= i < contributors.len() ==> (#[trigger] contributors[i]).is_contributor()) {
        Err(CoordinatorError::ExpectedContributor)
    } else if !(forall|i: int|
        0 <= i < verifiers.len() ==> (#[trigger] verifiers[i]).is_verifier()) {
        Err(CoordinatorError::ExpectedVerifier)
    } else if !(forall|i: int|
        0 <= i < chunk_verifiers.len() ==> (#[trigger] chunk_verifiers[i]).is_verifier()) {
        Err(CoordinatorError::ExpectedVerifier)
    } else {
        Ok(spec_new_round_form(num_chunks, height, started_at, contributors, verifiers, chunk_verifiers))
    }
}

impl RoundV {
    /// What `discard_contribution` decides: only the latest
    /// contribution of a chunk, still unverified, and never the
    /// initialization record, is dropped again — as happens when its
    /// verification fails. Dropping it releases the chunk lock.
    pub open spec fn spec_discard_contribution(self, chunk_id: u64, contribution_id: u64) -> Result<
        RoundV,
        CoordinatorError,
    > {
        if chunk_id >= self.chunks.len() {
            Err(CoordinatorError::ChunkMissing)
        } else {
            let chunk = self.chunks[chunk_id as int];
            if contribution_id >= chunk.contributions.len() {
                Err(CoordinatorError::ContributionMissing)
            } else if contribution_id == 0 {
                Err(CoordinatorError::VerificationOnContributionIdZero)
            } else if contribution_id != chunk.contributions.len() - 1 {
                Err(CoordinatorError::ContributionIdMismatch)
            } else if chunk.contributions[contribution_id as int].verified {
                Err(CoordinatorError::ContributionAlreadyVerified)
            } else {
                Ok(
                    RoundV {
                        chunks: self.chunks.update(
                            chunk_id as int,
                            ChunkV {
                                lock_holder: None,
                                contributions: chunk.contributions.drop_last(),
                                ..chunk
                            },
                        ),
                        ..self
                    },
                )
            }
        }
    }
}

/// One round of the ceremony, stored under its height.
#[derive(Debug)]
pub struct Round {
    pub height: u64,
    pub started_at: u64,
    pub contributors: Vec<Participant>,
    pub verifiers: Vec<Participant>,
    pub chunk_verifiers: Vec<Participant>,
    pub chunks: Vec<Chunk>,
}

impl View for Round {
    type V = RoundV;

    open spec fn view(&self) -> RoundV {
        RoundV {
            height: self.height,
            started_at: self.started_at,
            contributors: self.contributors.deep_view(),
            verifiers: self.verifiers.deep_view(),
            chunk_verifiers: self.chunk_verifiers.deep_view(),
            chunks: self.chunks.deep_view(),
        }
    }
}

impl DeepView for Round {
    type V = RoundV;

    open spec fn deep_view(&self) -> RoundV {
        self.view()
    }
}

impl Clone for Round {
    fn clone(&self) -> (res: Self)
        ensures
            res@ == self@,
    {
        let r = Round {
            height: self.height,
            started_at: self.started_at,
            contributors: self.contributors.clone(),
            verifiers: self.verifiers.clone(),
            chunk_verifiers: self.chunk_verifiers.clone(),
            chunks: self.chunks.clone(),
        };
        proof {
            assert(r@.contributors =~= self@.contributors);
            assert(r@.verifiers =~= self@.verifiers);
            assert(r@.chunk_verifiers =~= self@.chunk_verifiers);
            assert(r@.chunks =~= self@.chunks);
        }
        r
    }
}

impl Round {
    /// Builds a round for the given height from the supplied
    /// participants, with one fresh chunk per chunk verifier. Each
    /// chunk starts with the verified initialization record whose
    /// verified copy lives at contribution 0 of this height.
    ///
    /// Refuses an empty chunk set, an empty contributor or verifier
    /// list, a chunk verifier count different from `number_of_chunks`,
    /// and any participant whose role does not match its list.
    pub fn new(
        number_of_chunks: usize,
        height: u64,
        started_at: u64,
        contributors: Vec<Participant>,
        verifiers: Vec<Participant>,
        chunk_verifiers: Vec<Participant>,
    ) -> (r: Result<Round, CoordinatorError>)
        ensures
            match spec_round_new(
                number_of_chunks as int,
                height,
                started_at,
                contributors.deep_view(),
                verifiers.deep_view(),
                chunk_verifiers.deep_view(),
            ) {
                Ok(v) => r matches Ok(round) && round@ == v && round@.wf(),
                Err(e) => r == Err::<Round, CoordinatorError>(e),
            },
    {
        if number_of_chunks == 0 {
            return Err(CoordinatorError::NumberOfChunksInvalid);
        }
        if chunk_verifiers.len() != number_of_chunks {
            return Err(CoordinatorError::NumberOfChunkVerifierIdsInvalid);
        }
        if contributors.len() == 0 {
            return Err(CoordinatorError::ExpectedContributor);
        }
        if verifiers.len() == 0 {
            return Err(CoordinatorError::ExpectedVerifier);
        }
        let mut i: usize = 0;
        while i < contributors.len()
            invariant
                0 <= i <= contributors.len(),
                number_of_chunks > 0,
                chunk_verifiers.len() == number_of_chunks,
                contributors.len() > 0,
                verifiers.len() > 0,
                forall|j: int|
                    0 <= j < i ==> (#[trigger] contributors.deep_view()[j]).is_contributor(),
            decreases contributors.len() - i,
        {
            if !contributors[i].is_contributor() {
                proof {
                    assert(contributors.deep_view()[i as int] == contributors[i as int]@);
                }
                return Err(CoordinatorError::ExpectedContributor);
            }
            i = i + 1;
        }
        let mut i: usize = 0;
        while i < verifiers.len()
            invariant
                0 <= i <= verifiers.len(),
                number_of_chunks > 0,
                chunk_verifiers.len() == number_of_chunks,
                contributors.len() > 0,
                verifiers.len() > 0,
                forall|j: int|
                    0 <= j < contributors.len() ==> (
                    #[trigger] contributors.deep_view()[j]).is_contributor(),
                forall|j: int| 0 <= j < i ==> (#[trigger] verifiers.deep_view()[j]).is_verifier(),
            decreases verifiers.len() - i,
        {
            if !verifiers[i].is_verifier() {
                proof {
                    assert(verifiers.deep_view()[i as int] == verifiers[i as int]@);
                }
                return Err(CoordinatorError::ExpectedVerifier);
            }
            i = i + 1;
        }
        let mut i: usize = 0;
        while i < chunk_verifiers.len()
            invariant
                0 <= i <= chunk_verifiers.len(),
                number_of_chunks > 0,
                chunk_verifiers.len() == number_of_chunks,
                contributors.len() > 0,
                verifiers.len() > 0,
                forall|j: int|
                    0 <= j < contributors.len() ==> (
                    #[trigger] contributors.deep_view()[j]).is_contributor(),
                forall|j: int|
                    0 <= j < verifiers.len() ==> (
                    #[trigger] verifiers.deep_view()[j]).is_verifier(),
                forall|j: int|
                    0 <= j < i ==> (#[trigger] chunk_verifiers.deep_view()[j]).is_verifier(),
            decreases chunk_verifiers.len() - i,
        {
            if !chunk_verifiers[i].is_verifier() {
                proof {
                    assert(chunk_verifiers.deep_view()[i as int] == chunk_verifiers[i as int]@);
                }
                return Err(CoordinatorError::ExpectedVerifier);
            }
            i = i + 1;
        }
        let mut chunks: Vec<Chunk> = Vec::new();
        let mut c: usize = 0;
        while c < number_of_chunks
            invariant
                0 <= c <= number_of_chunks,
                number_of_chunks == chunk_verifiers.len(),
                number_of_chunks > 0,
                contributors.len() > 0,
                verifiers.len() > 0,
                forall|j: int|
                    0 <= j < contributors.len() ==> (
                    #[trigger] contributors.deep_view()[j]).is_contributor(),
                forall|j: int|
                    0 <= j < verifiers.len() ==> (
                    #[trigger] verifiers.deep_view()[j]).is_verifier(),
                forall|j: int|
                    0 <= j < chunk_verifiers.len() ==> (
                    #[trigger] chunk_verifiers.deep_view()[j]).is_verifier(),
                chunks.len() == c,
                forall|j: int|
                    0 <= j < c ==> #[trigger] chunks.deep_view()[j] == (ChunkV {
                        chunk_id: j as u64,
                        lock_holder: None,
                        contributions: seq![
                            ContributionV {
                                contributor_id: None,
                                contributed_location: None,
                                verifier_id: Some(chunk_verifiers.deep_view()[j].id()),
                                verified_location: Some(
                                    ContributionLocator {
                                        round_height: height,
                                        chunk_id: j as u64,
                                        contribution_id: 0,
                                        is_verified: true,
                                    },
                                ),
                                verified: true,
                            },
                        ],
                    }),
            decreases number_of_chunks - c,
        {
            let verifier_id = chunk_verifiers[c].id().clone();
            let locator = ContributionLocator::new(height, c as u64, 0, true);
            let chunk = Chunk::new(c as u64, verifier_id, locator);
            proof {
                assert(verifier_id@ == chunk_verifiers.deep_view()[c as int].id());
                assert(chunk@.contributions =~= seq![
                    ContributionV {
                        contributor_id: None,
                        contributed_location: None,
                        verifier_id: Some(chunk_verifiers.deep_view()[c as int].id()),
                        verified_location: Some(
                            ContributionLocator {
                                round_height: height,
                                chunk_id: c as u64,
                                contribution_id: 0,
                                is_verified: true,
                            },
                        ),
                        verified: true,
                    },
                ]);
            }
            let ghost pre_chunks = chunks.deep_view();
            chunks.push(chunk);
            proof {
                assert(chunks.deep_view() =~= pre_chunks.push(chunk@));
            }
            c = c + 1;
        }
        let round = Round { height, started_at, contributors, verifiers, chunk_verifiers, chunks };
        proof {
            let form = spec_new_round_form(
                number_of_chunks as int,
                height,
                started_at,
                round@.contributors,
                round@.verifiers,
                round@.chunk_verifiers,
            );
            assert forall|j: int| 0 <= j < round@.chunks.len() implies (
            #[trigger] round@.chunks[j]).wf() by {
                assert(round@.chunks[j].contributions.len() == 1);
            }
            assert(round@.chunks =~= form.chunks);
            assert(round@ == form);
        }
        Ok(round)
    }

    /// The height of this round.
    pub fn get_height(&self) -> (r: u64)
        ensures
            r == self@.height,
    {
        self.height
    }

    /// The number of contributors expected to contribute to every
    /// chunk of this round.
    pub fn num_contributors(&self) -> (r: u64)
        ensures
            r == self@.contributors.len(),
    {
        self.contributors.len() as u64
    }

    /// Returns `true` if the given participant is in the contributor
    /// list of this round.
    pub fn is_authorized_contributor(&self, participant: &Participant) -> (r: bool)
        ensures
            r == self@.authorized_contributor(participant@),
    {
        let n = self.contributors.len();
        let mut i: usize = 0;
        while i < n
            invariant
                0 <= i <= n,
                n == self.contributors.len(),
                forall|j: int| 0 <= j < i ==> self@.contributors[j] != participant@,
            decreases n - i,
        {
            if self.contributors[i].matches(participant) {
                assert(self@.contributors[i as int] == participant@);
                return true;
            }
            i = i + 1;
        }
        assert(!self@.contributors.contains(participant@));
        false
    }

    /// Returns `true` if the given participant is in the verifier list
    /// of this round.
    pub fn is_authorized_verifier(&self, participant: &Participant) -> (r: bool)
        ensures
            r == self@.authorized_verifier(participant@),
    {
        let n = self.verifiers.len();
        let mut i: usize = 0;
        while i < n
            invariant
                0 <= i <= n,
                n == self.verifiers.len(),
                forall|j: int| 0 <= j < i ==> self@.verifiers[j] != participant@,
            decreases n - i,
        {
            if self.verifiers[i].matches(participant) {
                assert(self@.verifiers[i as int] == participant@);
                return true;
            }
            i = i + 1;
        }
        assert(!self@.verifiers.contains(participant@));
        false
    }

    /// Returns the chunk with the given id, or `ChunkMissing` when the
    /// id is out of range.
    pub fn get_chunk(&self, chunk_id: u64) -> (r: Result<&Chunk, CoordinatorError>)
        ensures
            match r {
                Ok(chunk) => chunk_id < self@.chunks.len() && chunk@ == self@.chunks[chunk_id
                    as int],
                Err(e) => chunk_id >= self@.chunks.len() && e == CoordinatorError::ChunkMissing,
            },
    {
        if chunk_id < self.chunks.len() as u64 {
            Ok(&self.chunks[chunk_id as usize])
        } else {
            Err(CoordinatorError::ChunkMissing)
        }
    }

    /// Returns `true` if the given chunk exists and the given
    /// participant holds its lock.
    pub fn is_chunk_locked_by(&self, chunk_id: u64, participant: &Participant) -> (r: bool)
        ensures
            r == (chunk_id < self@.chunks.len() && self@.chunks[chunk_id as int].locked_by(
                participant@,
            )),
    {
        match self.get_chunk(chunk_id) {
            Ok(chunk) => chunk.is_locked_by(participant),
            Err(_) => false,
        }
    }

    /// True when every chunk of this round holds one verified
    /// contribution per contributor.
    pub fn is_complete(&self) -> (r: bool)
        requires
            self@.wf(),
        ensures
            r == self@.is_complete(),
    {
        let n = self.chunks.len();
        let expected = self.num_contributors();
        let mut i: usize = 0;
        while i < n
            invariant
                0 <= i <= n,
                n == self.chunks.len(),
                self@.wf(),
                expected == self@.contributors.len(),
                forall|j: int|
                    0 <= j < i ==> (#[trigger] self@.chunks[j]).is_complete(
                        self@.contributors.len() as int,
                    ),
            decreases n - i,
        {
            proof {
                assert(self.chunks[i as int]@ == self@.chunks[i as int]);
            }
            if !self.chunks[i].is_complete(expected) {
                return false;
            }
            i = i + 1;
        }
        true
    }

    /// Attempts to acquire the lock of the given chunk for the given
    /// participant, as [`RoundV::spec_try_lock_chunk`] decides.
    pub fn try_lock_chunk(&mut self, chunk_id: u64, participant: Participant) -> (r: Result<
        (),
        CoordinatorError,
    >)
        requires
            old(self)@.wf(),
        ensures
            final(self)@.wf(),
            match old(self)@.spec_try_lock_chunk(chunk_id, participant@) {
                Ok(v) => r == Ok::<(), CoordinatorError>(()) && final(self)@ == v,
                Err(e) => r == Err::<(), CoordinatorError>(e) && final(self)@ == old(self)@,
            },
    {
        let ghost decision = old(self)@.spec_try_lock_chunk(chunk_id, participant@);
        if chunk_id >= self.chunks.len() as u64 {
            return Err(CoordinatorError::ChunkMissing);
        }
        let idx = chunk_id as usize;
        if self.chunks[idx].is_locked() {
            return Err(CoordinatorError::ChunkLockAlreadyAcquired);
        }
        if participant.is_contributor() {
            if !self.is_authorized_contributor(&participant) {
                return Err(CoordinatorError::UnauthorizedChunkContributor);
            }
            let expected = self.num_contributors();
            if self.chunks[idx].is_complete(expected) {
                return Err(CoordinatorError::ChunkAlreadyComplete);
            }
            if self.chunks[idx].pending_verification() {
                return Err(CoordinatorError::UnauthorizedChunkContributor);
            }
            if self.chunks[idx].has_contributed(participant.id()) {
                return Err(CoordinatorError::ContributorAlreadyContributed);
            }
        } else {
            if !self.is_authorized_verifier(&participant) {
                return Err(CoordinatorError::UnauthorizedChunkVerifier);
            }
            if !self.chunks[idx].pending_verification() {
                return Err(CoordinatorError::ChunkAlreadyVerified);
            }
        }
        self.chunks[idx].lock_holder = Some(participant);
        proof {
            assert(self@.chunks =~= decision->Ok_0.chunks);
            assert(self@ == decision->Ok_0);
        }
        Ok(())
    }

    /// Appends a contribution to the given chunk and releases its
    /// lock, as [`RoundV::spec_add_contribution`] decides.
    pub fn add_contribution(
        &mut self,
        chunk_id: u64,
        contribution_id: u64,
        participant: Participant,
        locator: ContributionLocator,
    ) -> (r: Result<(), CoordinatorError>)
        requires
            old(self)@.wf(),
        ensures
            final(self)@.wf(),
            match old(self)@.spec_add_contribution(
                chunk_id,
                contribution_id,
                participant@,
                locator,
            ) {
                Ok(v) => r == Ok::<(), CoordinatorError>(()) && final(self)@ == v,
                Err(e) => r == Err::<(), CoordinatorError>(e) && final(self)@ == old(self)@,
            },
    {
        let ghost decision = old(self)@.spec_add_contribution(
            chunk_id,
            contribution_id,
            participant@,
            locator,
        );
        if chunk_id >= self.chunks.len() as u64 {
            return Err(CoordinatorError::ChunkMissing);
        }
        let idx = chunk_id as usize;
        if !participant.is_contributor() {
            return Err(CoordinatorError::ExpectedContributor);
        }
        if !self.is_authorized_contributor(&participant) {
            return Err(CoordinatorError::UnauthorizedChunkContributor);
        }
        if !self.chunks[idx].is_locked_by(&participant) {
            return Err(CoordinatorError::ChunkNotLockedOrByWrongParticipant);
        }
        if self.chunks[idx].pending_verification() {
            return Err(CoordinatorError::ChunkMissingVerification);
        }
        if self.chunks[idx].contributions.len() > self.contributors.len() {
            return Err(CoordinatorError::ContributionsComplete);
        }
        if contribution_id != self.chunks[idx].contributions.len() as u64 {
            return Err(CoordinatorError::ContributionIdMismatch);
        }
        let contribution = Contribution::new_uploaded(participant.id().clone(), locator);
        self.chunks[idx].contributions.push(contribution);
        self.chunks[idx].lock_holder = None;
        proof {
            assert(self@.chunks[chunk_id as int].contributions =~= decision->Ok_0.chunks[chunk_id
                as int].contributions);
            assert(self@.chunks[chunk_id as int] == decision->Ok_0.chunks[chunk_id as int]);
            assert(self@.chunks =~= decision->Ok_0.chunks);
            assert(self@ == decision->Ok_0);
            assert forall|j: int| 0 <= j < self@.chunks.len() implies (
            #[trigger] self@.chunks[j]).wf() by {
                if j != chunk_id as int {
                    assert(self@.chunks[j] == old(self)@.chunks[j]);
                }
            }
        }
        Ok(())
    }

    /// Marks a contribution of the given chunk as verified and
    /// releases the chunk lock, as
    /// [`RoundV::spec_verify_contribution`] decides.
    pub fn verify_contribution(
        &mut self,
        chunk_id: u64,
        contribution_id: u64,
        verifier: &Participant,
        verified_location: ContributionLocator,
    ) -> (r: Result<(), CoordinatorError>)
        requires
            old(self)@.wf(),
        ensures
            final(self)@.wf(),
            match old(self)@.spec_verify_contribution(
                chunk_id,
                contribution_id,
                verifier@,
                verified_location,
            ) {
                Ok(v) => r == Ok::<(), CoordinatorError>(()) && final(self)@ == v,
                Err(e) => r == Err::<(), CoordinatorError>(e) && final(self)@ == old(self)@,
            },
    {
        let ghost decision = old(self)@.spec_verify_contribution(
            chunk_id,
            contribution_id,
            verifier@,
            verified_location,
        );
        if chunk_id >= self.chunks.len() as u64 {
            return Err(CoordinatorError::ChunkMissing);
        }
        let idx = chunk_id as usize;
        if !verifier.is_verifier() {
            return Err(CoordinatorError::ExpectedVerifier);
        }
        if !self.chunks[idx].is_locked_by(verifier) {
            return Err(CoordinatorError::ChunkNotLockedOrByWrongParticipant);
        }
        if contribution_id >= self.chunks[idx].contributions.len() as u64 {
            return Err(CoordinatorError::ContributionMissing);
        }
        if contribution_id == 0 {
            return Err(CoordinatorError::VerificationOnContributionIdZero);
        }
        let cidx = contribution_id as usize;
        if self.chunks[idx].contributions[cidx].is_verified() {
            return Err(CoordinatorError::ContributionAlreadyVerified);
        }
        self.chunks[idx].contributions[cidx].set_verified(verifier.id().clone(), verified_location);
        self.chunks[idx].lock_holder = None;
        proof {
            assert(self@.chunks[chunk_id as int].contributions =~= decision->Ok_0.chunks[chunk_id
                as int].contributions);
            assert(self@.chunks[chunk_id as int] == decision->Ok_0.chunks[chunk_id as int]);
            assert(self@.chunks =~= decision->Ok_0.chunks);
            assert(self@ == decision->Ok_0);
            assert forall|j: int| 0 <= j < self@.chunks.len() implies (
            #[trigger] self@.chunks[j]).wf() by {
                if j != chunk_id as int {
                    assert(self@.chunks[j] == old(self)@.chunks[j]);
                }
            }
        }
        Ok(())
    }

    /// Drops the latest, still unverified contribution of a chunk and
    /// releases the chunk lock, as
    /// [`RoundV::spec_discard_contribution`] decides: what happens to
    /// a contribution whose verification fails.
    pub fn discard_contribution(&mut self, chunk_id: u64, contribution_id: u64) -> (r: Result<
        (),
        CoordinatorError,
    >)
        requires
            old(self)@.wf(),
        ensures
            final(self)@.wf(),
            match old(self)@.spec_discard_contribution(chunk_id, contribution_id) {
                Ok(v) => r == Ok::<(), CoordinatorError>(()) && final(self)@ == v,
                Err(e) => r == Err::<(), CoordinatorError>(e) && final(self)@ == old(self)@,
            },
    {
        let ghost decision = old(self)@.spec_discard_contribution(chunk_id, contribution_id);
        if chunk_id >= self.chunks.len() as u64 {
            return Err(CoordinatorError::ChunkMissing);
        }
        let idx = chunk_id as usize;
        if contribution_id >= self.chunks[idx].contributions.len() as u64 {
            return Err(CoordinatorError::ContributionMissing);
        }
        if contribution_id == 0 {
            return Err(CoordinatorError::VerificationOnContributionIdZero);
        }
        if contribution_id != (self.chunks[idx].contributions.len() - 1) as u64 {
            return Err(CoordinatorError::ContributionIdMismatch);
        }
        if self.chunks[idx].contributions[contribution_id as usize].is_verified() {
            return Err(CoordinatorError::ContributionAlreadyVerified);
        }
        self.chunks[idx].contributions.pop();
        self.chunks[idx].lock_holder = None;
        proof {
            assert(self.chunks[idx as int]@.contributions =~= decision->Ok_0.chunks[chunk_id
                as int].contributions);
            assert(self@.chunks[chunk_id as int] == decision->Ok_0.chunks[chunk_id as int]);
            assert(self@.chunks =~= decision->Ok_0.chunks);
            assert(self@ == decision->Ok_0);
            assert forall|j: int| 0 <= j < self@.chunks.len() implies (
            #[trigger] self@.chunks[j]).wf() by {
                if j != chunk_id as int {
                    assert(self@.chunks[j] == old(self)@.chunks[j]);
                } else {
                    assert(old(self)@.chunks[j].wf());
                    assert(self@.chunks[j].contributions.len() >= 1);
                }
            }
        }
        Ok(())
    }

    /// Releases every chunk lock held by the given participant, as
    /// happens when the participant is evicted from the round.
    pub fn release_locks_of(&mut self, participant: &Participant)
        requires
            old(self)@.wf(),
        ensures
            final(self)@.wf(),
            final(self)@.chunks.len() == old(self)@.chunks.len(),
            forall|j: int|
                0 <= j < old(self)@.chunks.len() ==> #[trigger] final(self)@.chunks[j] == (
                if old(self)@.chunks[j].locked_by(participant@) {
                    ChunkV { lock_holder: None, ..old(self)@.chunks[j] }
                } else {
                    old(self)@.chunks[j]
                }),
            final(self)@ == (RoundV { chunks: final(self)@.chunks, ..old(self)@ }),
    {
        let n = self.chunks.len();
        let mut i: usize = 0;
        while i < n
            invariant
                0 <= i <= n,
                n == self.chunks.len(),
                old(self)@.wf(),
                self@.chunks.len() == old(self)@.chunks.len(),
                forall|j: int|
                    i <= j < old(self)@.chunks.len() ==> #[trigger] self@.chunks[j] == old(
                        self,
                    )@.chunks[j],
                forall|j: int|
                    0 <= j < i ==> #[trigger] self@.chunks[j] == (
                    if old(self)@.chunks[j].locked_by(participant@) {
                        ChunkV { lock_holder: None, ..old(self)@.chunks[j] }
                    } else {
                        old(self)@.chunks[j]
                    }),
                self@ == (RoundV { chunks: self@.chunks, ..old(self)@ }),
            decreases n - i,
        {
            let ghost pre = self@;
            if self.chunks[i].is_locked_by(participant) {
                self.chunks[i].lock_holder = None;
                proof {
                    assert(self.chunks.deep_view() =~= pre.chunks.update(
                        i as int,
                        ChunkV { lock_holder: None, ..pre.chunks[i as int] },
                    ));
                }
            }
            proof {
                assert(self.chunks[i as int]@ == self@.chunks[i as int]);
                assert(forall|j: int|
                    0 <= j < pre.chunks.len() && j != i ==> #[trigger] self@.chunks[j]
                        == pre.chunks[j]);
                assert(self@.chunks[i as int] == (
                if old(self)@.chunks[i as int].locked_by(participant@) {
                    ChunkV { lock_holder: None, ..old(self)@.chunks[i as int] }
                } else {
                    old(self)@.chunks[i as int]
                }));
            }
            i = i + 1;
        }
        proof {
            assert forall|j: int| 0 <= j < self@.chunks.len() implies (
            #[trigger] self@.chunks[j]).wf() by {
                assert(old(self)@.chunks[j].wf());
            }
        }
    }
}

} // verus!
