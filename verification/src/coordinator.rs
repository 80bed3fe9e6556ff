//! The coordinator of the ceremony: it owns the store and the
//! contributor queue, sequences rounds, hands out chunk locks,
//! accepts and verifies contributions, aggregates finished rounds and
//! advances the round height.

use vstd::prelude::*;

use crate::adapters::{compute_hash, content_hash_of};
use crate::chunk::ChunkV;
use crate::errors::CoordinatorError;
use crate::locator::{ContributionLocator, ContributionSignatureLocator, LockedLocators, Task};
use crate::participant::{Participant, ParticipantV};
use crate::queue::{
    banned_form, evicted_form, stale, ContributorStatus, ParticipantQueue, ParticipantQueueV,
    QueueEntry, QueueEntryV, QueueStatus,
};

use crate::round::{spec_new_round_form, spec_round_new, Round, RoundV};
use crate::signature::ContributionFileSignature;
use crate::storage::{Storage, StoreStateV};

verus! {

/// The fixed configuration of a ceremony: how many chunks the
/// parameter set is partitioned into, the coordinator's own two
/// participants, and the liveness and capacity knobs of the queue.
#[derive(Debug)]
pub struct Environment {
    pub number_of_chunks: usize,
    pub coordinator_contributor: Participant,
    pub coordinator_verifier: Participant,
    pub heartbeat_timeout: u64,
    pub active_capacity: u64,
}

impl Environment {
    /// Well-formedness: at least one chunk, and the coordinator's
    /// participants carry their advertised roles.
    pub open spec fn wf(self) -> bool {
        &&& self.number_of_chunks >= 1
        &&& self.coordinator_contributor@.is_contributor()
        &&& self.coordinator_verifier@.is_verifier()
    }

    /// Builds a configuration; refuses an empty chunk set.
    pub fn new(
        number_of_chunks: usize,
        contributor_id: &str,
        verifier_id: &str,
        heartbeat_timeout: u64,
        active_capacity: u64,
    ) -> (r: Result<Environment, CoordinatorError>)
        ensures
            match r {
                Ok(env) => {
                    &&& env.wf()
                    &&& number_of_chunks >= 1
                    &&& env.number_of_chunks == number_of_chunks
                    &&& env.coordinator_contributor@ == ParticipantV::Contributor(contributor_id@)
                    &&& env.coordinator_verifier@ == ParticipantV::Verifier(verifier_id@)
                    &&& env.heartbeat_timeout == heartbeat_timeout
                    &&& env.active_capacity == active_capacity
                },
                Err(e) => e == CoordinatorError::NumberOfChunksInvalid && number_of_chunks == 0,
            },
    {
        if number_of_chunks == 0 {
            return Err(CoordinatorError::NumberOfChunksInvalid);
        }
        Ok(
            Environment {
                number_of_chunks,
                coordinator_contributor: Participant::new_contributor(contributor_id),
                coordinator_verifier: Participant::new_verifier(verifier_id),
                heartbeat_timeout,
                active_capacity,
            },
        )
    }

    /// The number of chunks of the ceremony.
    pub fn number_of_chunks(&self) -> (r: u64)
        ensures
            r == self.number_of_chunks,
    {
        self.number_of_chunks as u64
    }

    /// The contributor the coordinator itself acts as during
    /// initialization.
    pub fn coordinator_contributor(&self) -> (r: &Participant)
        ensures
            r@ == self.coordinator_contributor@,
    {
        &self.coordinator_contributor
    }

    /// The verifier the coordinator itself acts as.
    pub fn coordinator_verifier(&self) -> (r: &Participant)
        ensures
            r@ == self.coordinator_verifier@,
    {
        &self.coordinator_verifier
    }
}

/// The round height a store copy is at: the recorded height, or zero
/// when none was ever recorded.
pub open spec fn spec_height(s: StoreStateV) -> u64 {
    match s.round_height {
        Some(h) => h,
        None => 0,
    }
}

/// The plain locator of a contribution artifact.
pub open spec fn plain_locator(h: u64, c: u64, i: u64) -> ContributionLocator {
    ContributionLocator { round_height: h, chunk_id: c, contribution_id: i, is_verified: false }
}

/// The locator of the verified copy of a contribution artifact.
pub open spec fn verified_locator(h: u64, c: u64, i: u64) -> ContributionLocator {
    ContributionLocator { round_height: h, chunk_id: c, contribution_id: i, is_verified: true }
}

/// The semantic invariant of one store copy.
///
/// Every stored round sits under its own height, is well-formed, and
/// holds one chunk per configured chunk of the ceremony; a recorded
/// positive height names a stored round; and for every height up to
/// the current one, the initial contribution artifact of every chunk
/// is in the store.
pub open spec fn store_wf(s: StoreStateV, num_chunks: int) -> bool {
    &&& forall|h: u64|
        #[trigger] s.rounds.dom().contains(h) ==> s.rounds[h].height == h && s.rounds[h].wf()
            && s.rounds[h].chunks.len() == num_chunks
    &&& (match s.round_height {
        Some(h) => h > 0 ==> s.rounds.dom().contains(h),
        None => true,
    })
    &&& (s.round_height is Some ==> forall|h: u64, c: u64|
        h <= spec_height(s) && 0 <= c < num_chunks ==> s.blobs.dom().contains(
            #[trigger] plain_locator(h, c, 0),
        ))
}

/// What `current_round_height` answers over a store copy: the
/// recorded height, provided its round is actually stored; zero when
/// the ceremony has not started.
pub open spec fn spec_current_round_height(s: StoreStateV) -> Result<u64, CoordinatorError> {
    match s.round_height {
        Some(h) => if h != 0 {
            if s.rounds.dom().contains(h) {
                Ok(h)
            } else {
                Err(CoordinatorError::StorageFailed)
            }
        } else {
            Ok(0u64)
        },
        None => Ok(0u64),
    }
}

/// What `current_round` answers over a store copy: the round stored
/// under the current height.
pub open spec fn spec_current_round(s: StoreStateV) -> Result<RoundV, CoordinatorError> {
    match spec_current_round_height(s) {
        Err(e) => Err(e),
        Ok(h) => if !s.rounds.dom().contains(h) {
            Err(CoordinatorError::RoundDoesNotExist)
        } else if s.rounds[h].height != h {
            Err(CoordinatorError::RoundHeightMismatch)
        } else {
            Ok(s.rounds[h])
        },
    }
}

/// A core structure for operating the ceremony.
#[derive(Debug)]
pub struct Coordinator {
    pub environment: Environment,
    pub storage: Storage,
    pub queue: ParticipantQueue,
    pub pending_verifications: Vec<Task>,
}

impl Coordinator {
    /// The coordinator's invariant: a well-formed configuration, both
    /// store copies well-formed structurally and semantically, and a
    /// well-formed queue.
    pub open spec fn wf(self) -> bool {
        &&& self.environment.wf()
        &&& self.storage.wf()
        &&& store_wf(self.storage.pending@, self.environment.number_of_chunks as int)
        &&& store_wf(self.storage.durable@, self.environment.number_of_chunks as int)
        &&& self.queue@.wf()
    }

    /// The pending store copy, which every operation reads and
    /// mutates.
    pub open spec fn store(self) -> StoreStateV {
        self.storage.pending@
    }

    /// Creates a new coordinator for a given environment, with an
    /// empty store and an empty queue.
    pub fn new(environment: Environment) -> (r: Result<Coordinator, CoordinatorError>)
        requires
            environment.wf(),
        ensures
            match r {
                Ok(c) => {
                    &&& c.wf()
                    &&& c.environment == environment
                    &&& c.store().round_height is None
                    &&& c.store().rounds == Map::<u64, RoundV>::empty()
                    &&& c.store().blobs == Map::<ContributionLocator, Seq<u8>>::empty()
                    &&& c.queue@.entries.len() == 0
                    &&& c.pending_verifications@.len() == 0
                },
                Err(_) => false,
            },
    {
        Ok(
            Coordinator {
                environment,
                storage: Storage::new(),
                queue: ParticipantQueue::new(),
                pending_verifications: Vec::new(),
            },
        )
    }

    /// Returns the current round height of the ceremony from storage:
    /// zero when there has been no prior round, and otherwise the
    /// recorded height after checking that its round is stored.
    pub fn current_round_height(&self) -> (r: Result<u64, CoordinatorError>)
        ensures
            r == spec_current_round_height(self.store()),
    {
        match self.storage.pending.round_height {
            Some(h) => {
                if h != 0 {
                    if self.storage.pending.contains_round(h) {
                        Ok(h)
                    } else {
                        Err(CoordinatorError::StorageFailed)
                    }
                } else {
                    Ok(0)
                }
            },
            None => Ok(0),
        }
    }

    /// Returns a copy of the round stored under the given height, or
    /// `RoundDoesNotExist`.
    pub fn get_round(&self, round_height: u64) -> (r: Result<Round, CoordinatorError>)
        requires
            self.wf(),
        ensures
            match r {
                Ok(round) => self.store().rounds.dom().contains(round_height) && round@
                    == self.store().rounds[round_height],
                Err(e) => e == CoordinatorError::RoundDoesNotExist
                    && !self.store().rounds.dom().contains(round_height),
            },
    {
        match self.storage.pending.get_round(round_height) {
            Some(round) => Ok(round.clone()),
            None => Err(CoordinatorError::RoundDoesNotExist),
        }
    }

    /// Returns a copy of the current round of the ceremony from
    /// storage, checking that its recorded height matches the current
    /// round height.
    pub fn current_round(&self) -> (r: Result<Round, CoordinatorError>)
        requires
            self.wf(),
        ensures
            match r {
                Ok(round) => spec_current_round(self.store()) == Ok::<RoundV, CoordinatorError>(
                    round@,
                ),
                Err(e) => spec_current_round(self.store()) == Err::<RoundV, CoordinatorError>(e),
            },
    {
        let round_height = match self.current_round_height() {
            Ok(h) => h,
            Err(e) => {
                return Err(e);
            },
        };
        let round = match self.get_round(round_height) {
            Ok(round) => round,
            Err(e) => {
                return Err(e);
            },
        };
        if round.get_height() == round_height {
            Ok(round)
        } else {
            Err(CoordinatorError::RoundHeightMismatch)
        }
    }

    /// Returns `true` if the given participant is a contributor
    /// authorized for the current round; a verifier is refused with
    /// `ExpectedContributor`.
    pub fn is_current_contributor(&self, participant: &Participant) -> (r: Result<
        bool,
        CoordinatorError,
    >)
        requires
            self.wf(),
        ensures
            match r {
                Ok(b) => participant@.is_contributor() && (match spec_current_round(self.store()) {
                    Ok(round) => b == round.authorized_contributor(participant@),
                    Err(_) => false,
                }),
                Err(e) => {
                    ||| (e == CoordinatorError::ExpectedContributor
                        && !participant@.is_contributor())
                    ||| (participant@.is_contributor() && spec_current_round(self.store())
                        == Err::<RoundV, CoordinatorError>(e))
                },
            },
    {
        if !participant.is_contributor() {
            return Err(CoordinatorError::ExpectedContributor);
        }
        match self.current_round() {
            Ok(round) => Ok(round.is_authorized_contributor(participant)),
            Err(e) => Err(e),
        }
    }

    /// Returns `true` if the given participant is a verifier
    /// authorized for the current round; a contributor is refused with
    /// `ExpectedVerifier`.
    pub fn is_current_verifier(&self, participant: &Participant) -> (r: Result<
        bool,
        CoordinatorError,
    >)
        requires
            self.wf(),
        ensures
            match r {
                Ok(b) => participant@.is_verifier() && (match spec_current_round(self.store()) {
                    Ok(round) => b == round.authorized_verifier(participant@),
                    Err(_) => false,
                }),
                Err(e) => {
                    ||| (e == CoordinatorError::ExpectedVerifier && !participant@.is_verifier())
                    ||| (participant@.is_verifier() && spec_current_round(self.store())
                        == Err::<RoundV, CoordinatorError>(e))
                },
            },
    {
        if !participant.is_verifier() {
            return Err(CoordinatorError::ExpectedVerifier);
        }
        match self.current_round() {
            Ok(round) => Ok(round.is_authorized_verifier(participant)),
            Err(e) => Err(e),
        }
    }

    /// True when an artifact is stored under the given locator
    /// coordinates.
    pub fn contribution_locator_exists(
        &self,
        round_height: u64,
        chunk_id: u64,
        contribution_id: u64,
        is_verified: bool,
    ) -> (r: bool)
        ensures
            r == self.store().blobs.dom().contains(
                ContributionLocator { round_height, chunk_id, contribution_id, is_verified },
            ),
    {
        self.storage.pending.contains_blob(
            ContributionLocator::new(round_height, chunk_id, contribution_id, is_verified),
        )
    }

    /// True when the aggregated round file of the given height is
    /// stored.
    pub fn round_locator_exists(&self, round_height: u64) -> (r: bool)
        ensures
            r == self.store().round_files.dom().contains(round_height),
    {
        self.storage.pending.contains_round_file(round_height)
    }

    /// True when any artifact of the given round is stored: the
    /// round's directory exists.
    pub fn round_directory_exists(&self, round_height: u64) -> (r: bool)
        requires
            self.wf(),
        ensures
            r == (round_height <= spec_height(self.store())),
    {
        let h = match self.storage.pending.round_height {
            Some(h) => h,
            None => 0,
        };
        round_height <= h
    }

    /// Atomically persists the pending state of the store, as a
    /// single save covering every prior insert.
    pub fn save(&mut self) -> (r: bool)
        requires
            old(self).wf(),
        ensures
            r == true,
            final(self).wf(),
            final(self).storage.pending == old(self).storage.pending,
            final(self).storage.durable@ == old(self).storage.pending@,
            final(self).environment == old(self).environment,
            final(self).queue == old(self).queue,
            final(self).pending_verifications == old(self).pending_verifications,
    {
        self.storage.save()
    }

    /// Restores the pending state from the last save, as a restart
    /// does: every mutation after it is gone.
    pub fn recover(&mut self) -> (r: bool)
        requires
            old(self).wf(),
        ensures
            r == true,
            final(self).wf(),
            final(self).storage.durable == old(self).storage.durable,
            final(self).storage.pending@ == old(self).storage.durable@,
            final(self).environment == old(self).environment,
            final(self).queue == old(self).queue,
            final(self).pending_verifications == old(self).pending_verifications,
    {
        self.storage.recover()
    }
}

/// What `current_contribution_locator` answers over a store copy:
/// the plain locator of the latest contribution of the given chunk in
/// the current round.
pub open spec fn spec_current_contribution_locator(s: StoreStateV, chunk_id: u64) -> Result<
    ContributionLocator,
    CoordinatorError,
> {
    match spec_current_round_height(s) {
        Err(e) => Err(e),
        Ok(h) => match spec_current_round(s) {
            Err(e) => Err(e),
            Ok(round) => if chunk_id >= round.chunks.len() {
                Err(CoordinatorError::ChunkMissing)
            } else {
                Ok(
                    plain_locator(
                        h,
                        chunk_id,
                        round.chunks[chunk_id as int].current_contribution_id() as u64,
                    ),
                )
            },
        },
    }
}

/// What `next_contribution_locator_strict` answers over a store copy:
/// the plain locator of the pending contribution slot of the given
/// chunk, provided nothing is stored there yet.
pub open spec fn spec_next_contribution_locator_strict(s: StoreStateV, chunk_id: u64) -> Result<
    ContributionLocator,
    CoordinatorError,
> {
    match spec_current_round_height(s) {
        Err(e) => Err(e),
        Ok(h) => match spec_current_round(s) {
            Err(e) => Err(e),
            Ok(round) => if chunk_id >= round.chunks.len() {
                Err(CoordinatorError::ChunkMissing)
            } else {
                match round.chunks[chunk_id as int].spec_next_contribution_id(
                    round.contributors.len() as int,
                ) {
                    Err(e) => Err(e),
                    Ok(next) => if s.blobs.dom().contains(plain_locator(h, chunk_id, next as u64)) {
                        Err(CoordinatorError::ContributionLocatorAlreadyExists)
                    } else {
                        Ok(plain_locator(h, chunk_id, next as u64))
                    },
                }
            },
        },
    }
}

/// What the coordinator-level `try_lock_chunk` decides: the current
/// round is loaded, its height checked against the storage key, and
/// the lock acquired as the round decides; the updated round replaces
/// the stored one.
pub open spec fn spec_coordinator_try_lock(s: StoreStateV, chunk_id: u64, p: ParticipantV) -> Result<
    StoreStateV,
    CoordinatorError,
> {
    match spec_current_round_height(s) {
        Err(e) => Err(e),
        Ok(h) => if !s.rounds.dom().contains(h) {
            Err(CoordinatorError::RoundDoesNotExist)
        } else if s.rounds[h].height != h {
            Err(CoordinatorError::RoundHeightMismatch)
        } else {
            match s.rounds[h].spec_try_lock_chunk(chunk_id, p) {
                Err(e) => Err(e),
                Ok(v) => Ok(StoreStateV { rounds: s.rounds.insert(h, v), ..s }),
            }
        },
    }
}

impl Coordinator {
    /// Returns the plain locator of the current (latest) contribution
    /// of the given chunk in the current round.
    pub fn current_contribution_locator(&self, chunk_id: u64) -> (r: Result<
        ContributionLocator,
        CoordinatorError,
    >)
        requires
            self.wf(),
        ensures
            r == spec_current_contribution_locator(self.store(), chunk_id),
    {
        let round_height = match self.current_round_height() {
            Ok(h) => h,
            Err(e) => {
                return Err(e);
            },
        };
        let round = match self.current_round() {
            Ok(round) => round,
            Err(e) => {
                return Err(e);
            },
        };
        let chunk = match round.get_chunk(chunk_id) {
            Ok(chunk) => chunk,
            Err(e) => {
                return Err(e);
            },
        };
        let current_contribution_id = chunk.current_contribution_id();
        Ok(ContributionLocator::new(round_height, chunk_id, current_contribution_id, false))
    }

    /// Returns the plain locator of the pending contribution slot of
    /// the given chunk, refusing it when an artifact is already
    /// stored there.
    pub fn next_contribution_locator_strict(&self, chunk_id: u64) -> (r: Result<
        ContributionLocator,
        CoordinatorError,
    >)
        requires
            self.wf(),
        ensures
            r == spec_next_contribution_locator_strict(self.store(), chunk_id),
    {
        let round_height = match self.current_round_height() {
            Ok(h) => h,
            Err(e) => {
                return Err(e);
            },
        };
        let round = match self.current_round() {
            Ok(round) => round,
            Err(e) => {
                return Err(e);
            },
        };
        let num_contributors = round.num_contributors();
        let chunk = match round.get_chunk(chunk_id) {
            Ok(chunk) => chunk,
            Err(e) => {
                return Err(e);
            },
        };
        let next_contribution_id = match chunk.next_contribution_id(num_contributors) {
            Ok(id) => id,
            Err(e) => {
                return Err(e);
            },
        };
        if self.contribution_locator_exists(round_height, chunk_id, next_contribution_id, false) {
            return Err(CoordinatorError::ContributionLocatorAlreadyExists);
        }
        Ok(ContributionLocator::new(round_height, chunk_id, next_contribution_id, false))
    }

    /// Attempts to acquire the lock of the given chunk of the current
    /// round for the given participant, as
    /// [`spec_coordinator_try_lock`] decides.
    pub fn try_lock_chunk(&mut self, chunk_id: u64, participant: Participant) -> (r: Result<
        (),
        CoordinatorError,
    >)
        requires
            old(self).wf(),
        ensures
            final(self).wf(),
            final(self).environment == old(self).environment,
            final(self).queue == old(self).queue,
            final(self).pending_verifications == old(self).pending_verifications,
            final(self).storage.durable@ == old(self).storage.durable@,
            match spec_coordinator_try_lock(old(self).store(), chunk_id, participant@) {
                Ok(v) => r == Ok::<(), CoordinatorError>(()) && final(self).store() == v,
                Err(e) => r == Err::<(), CoordinatorError>(e) && final(self).store() == old(
                    self,
                ).store(),
            },
    {
        let round_height = match self.current_round_height() {
            Ok(h) => h,
            Err(e) => {
                return Err(e);
            },
        };
        let mut round = match self.get_round(round_height) {
            Ok(round) => round,
            Err(e) => {
                return Err(e);
            },
        };
        if round.get_height() != round_height {
            return Err(CoordinatorError::RoundHeightMismatch);
        }
        match round.try_lock_chunk(chunk_id, participant) {
            Ok(()) => {},
            Err(e) => {
                return Err(e);
            },
        }
        self.storage.pending.insert_round(round_height, round);
        Ok(())
    }
}

/// True for the four locators the initialization of one chunk
/// writes: the plain artifact and the verified copy of contribution
/// zero, for round zero and for round one.
pub open spec fn init_locator_form(l: ContributionLocator, num_chunks: int) -> bool {
    &&& l.contribution_id == 0
    &&& l.chunk_id < num_chunks
    &&& (l.round_height == 0 || l.round_height == 1)
}

impl Coordinator {
    /// Initializes the ceremony: creates round zero with the
    /// coordinator's own contributor and verifier, stores the
    /// initialization output of every chunk — the starting challenge
    /// of round zero and of the first public round, each with its
    /// verified copy — records height zero, and saves.
    ///
    /// `init_artifacts` holds, per chunk, the bytes of the round-zero
    /// artifact and of the round-one starting challenge. The call is
    /// refused once a height is recorded or round zero exists, and
    /// when the artifacts are not one non-empty pair per chunk.
    pub fn initialize_ceremony(
        &mut self,
        started_at: u64,
        init_artifacts: &Vec<(Vec<u8>, Vec<u8>)>,
    ) -> (r: Result<(), CoordinatorError>)
        requires
            old(self).wf(),
        ensures
            final(self).wf(),
            final(self).environment == old(self).environment,
            final(self).queue == old(self).queue,
            final(self).pending_verifications == old(self).pending_verifications,
            match r {
                Ok(()) => {
                    let num = old(self).environment.number_of_chunks as int;
                    &&& spec_current_round_height(old(self).store()) == Ok::<u64, CoordinatorError>(
                        0u64,
                    )
                    &&& !old(self).store().rounds.dom().contains(0)
                    &&& init_artifacts.deep_view().len() == num
                    &&& final(self).store().round_height == Some(0u64)
                    &&& final(self).store().rounds == old(self).store().rounds.insert(
                        0,
                        spec_new_round_form(
                            num,
                            0,
                            started_at,
                            seq![old(self).environment.coordinator_contributor@],
                            seq![old(self).environment.coordinator_verifier@],
                            Seq::new(
                                num as nat,
                                |i: int| old(self).environment.coordinator_verifier@,
                            ),
                        ),
                    )
                    &&& forall|c: u64|
                        0 <= c < num ==> {
                            &&& final(self).store().blobs.dom().contains(
                                #[trigger] plain_locator(0, c, 0),
                            )
                            &&& final(self).store().blobs[plain_locator(0, c, 0)]
                                == init_artifacts.deep_view()[c as int].0
                            &&& final(self).store().blobs[verified_locator(0, c, 0)]
                                == init_artifacts.deep_view()[c as int].0
                            &&& final(self).store().blobs[plain_locator(1, c, 0)]
                                == init_artifacts.deep_view()[c as int].1
                            &&& final(self).store().blobs[verified_locator(1, c, 0)]
                                == init_artifacts.deep_view()[c as int].1
                        }
                    &&& forall|l: ContributionLocator|
                        !init_locator_form(l, num) ==> (final(self).store().blobs.dom().contains(l)
                            == old(self).store().blobs.dom().contains(l)) && (old(
                            self,
                        ).store().blobs.dom().contains(l) ==> final(self).store().blobs[l] == old(
                            self,
                        ).store().blobs[l])
                    &&& final(self).store().signatures == old(self).store().signatures
                    &&& final(self).store().round_files == old(self).store().round_files
                    &&& final(self).storage.durable@ == final(self).store()
                },
                Err(e) => {
                    &&& final(self).store() == old(self).store()
                    &&& final(self).storage.durable@ == old(self).storage.durable@
                    &&& (match spec_current_round_height(old(self).store()) {
                        Err(he) => e == he,
                        Ok(h) => {
                            ||| (e == CoordinatorError::RoundAlreadyInitialized && (h != 0 || old(
                                self,
                            ).store().rounds.dom().contains(0)))
                            ||| (e == CoordinatorError::InitializationFailed && h == 0 && !old(
                                self,
                            ).store().rounds.dom().contains(0))
                        },
                    })
                },
            },
    {
        let num = self.environment.number_of_chunks;
        match self.current_round_height() {
            Ok(h) => {
                if h != 0 {
                    return Err(CoordinatorError::RoundAlreadyInitialized);
                }
            },
            Err(e) => {
                return Err(e);
            },
        }
        if self.storage.pending.contains_round(0) {
            return Err(CoordinatorError::RoundAlreadyInitialized);
        }
        if init_artifacts.len() != num {
            return Err(CoordinatorError::InitializationFailed);
        }
        let mut c: usize = 0;
        while c < num
            invariant
                0 <= c <= num,
                num == init_artifacts.len(),
                old(self).wf(),
                spec_current_round_height(old(self).store()) == Ok::<u64, CoordinatorError>(0u64),
                !old(self).store().rounds.dom().contains(0),
                self.environment == old(self).environment,
                self.storage == old(self).storage,
                self.queue == old(self).queue,
                self.pending_verifications == old(self).pending_verifications,
                forall|j: int|
                    0 <= j < c ==> (#[trigger] init_artifacts.deep_view()[j]).0.len() > 0
                        && init_artifacts.deep_view()[j].1.len() > 0,
            decreases num - c,
        {
            if init_artifacts[c].0.len() == 0 || init_artifacts[c].1.len() == 0 {
                return Err(CoordinatorError::InitializationFailed);
            }
            c = c + 1;
        }
        let contributors = vec![self.environment.coordinator_contributor.clone()];
        let verifiers = vec![self.environment.coordinator_verifier.clone()];
        let mut chunk_verifiers: Vec<Participant> = Vec::new();
        let mut c: usize = 0;
        while c < num
            invariant
                0 <= c <= num,
                chunk_verifiers.len() == c,
                old(self).wf(),
                num == old(self).environment.number_of_chunks,
                self.environment == old(self).environment,
                self.storage == old(self).storage,
                self.queue == old(self).queue,
                self.pending_verifications == old(self).pending_verifications,
                forall|j: int|
                    0 <= j < c ==> #[trigger] chunk_verifiers.deep_view()[j]
                        == self.environment.coordinator_verifier@,
            decreases num - c,
        {
            let ghost pre = chunk_verifiers.deep_view();
            chunk_verifiers.push(self.environment.coordinator_verifier.clone());
            proof {
                assert(chunk_verifiers.deep_view() =~= pre.push(
                    chunk_verifiers[c as int].deep_view(),
                ));
            }
            c = c + 1;
        }
        let round = match Round::new(num, 0, started_at, contributors, verifiers, chunk_verifiers) {
            Ok(round) => round,
            Err(_) => {
                return Err(CoordinatorError::InitializationFailed);
            },
        };
        proof {
            assert(round@.chunks =~= spec_new_round_form(
                num as int,
                0,
                started_at,
                seq![self.environment.coordinator_contributor@],
                seq![self.environment.coordinator_verifier@],
                Seq::new(num as nat, |i: int| self.environment.coordinator_verifier@),
            ).chunks);
            assert(round@.contributors =~= seq![self.environment.coordinator_contributor@]);
            assert(round@.verifiers =~= seq![self.environment.coordinator_verifier@]);
            assert(round@.chunk_verifiers =~= Seq::new(
                num as nat,
                |i: int| self.environment.coordinator_verifier@,
            ));
        }
        let ghost pre_blobs = self.store().blobs;
        let mut c: usize = 0;
        while c < num
            invariant
                0 <= c <= num,
                num == init_artifacts.len(),
                num == self.environment.number_of_chunks,
                old(self).wf(),
                forall|j: int|
                    0 <= j < num ==> (#[trigger] init_artifacts.deep_view()[j]).0.len() > 0
                        && init_artifacts.deep_view()[j].1.len() > 0,
                self.environment == old(self).environment,
                self.queue == old(self).queue,
                self.pending_verifications == old(self).pending_verifications,
                self.storage.durable@ == old(self).storage.durable@,
                self.storage.wf(),
                store_wf(self.storage.durable@, num as int),
                self.store() == (StoreStateV { blobs: self.store().blobs, ..old(self).store() }),
                pre_blobs == old(self).store().blobs,
                forall|cc: u64|
                    0 <= cc < c ==> {
                        &&& self.store().blobs.dom().contains(#[trigger] plain_locator(0, cc, 0))
                        &&& self.store().blobs.dom().contains(verified_locator(0, cc, 0))
                        &&& self.store().blobs.dom().contains(plain_locator(1, cc, 0))
                        &&& self.store().blobs.dom().contains(verified_locator(1, cc, 0))
                        &&& self.store().blobs[plain_locator(0, cc, 0)]
                            == init_artifacts.deep_view()[cc as int].0
                        &&& self.store().blobs[verified_locator(0, cc, 0)]
                            == init_artifacts.deep_view()[cc as int].0
                        &&& self.store().blobs[plain_locator(1, cc, 0)]
                            == init_artifacts.deep_view()[cc as int].1
                        &&& self.store().blobs[verified_locator(1, cc, 0)]
                            == init_artifacts.deep_view()[cc as int].1
                    },
                forall|l: ContributionLocator|
                    !(init_locator_form(l, num as int) && l.chunk_id < c) ==> (
                    self.store().blobs.dom().contains(l) == pre_blobs.dom().contains(l)) && (
                    pre_blobs.dom().contains(l) ==> self.store().blobs[l] == pre_blobs[l]),
            decreases num - c,
        {
            let ghost blobs_head = self.store().blobs;
            let zero_bytes = init_artifacts[c].0.clone();
            let one_bytes = init_artifacts[c].1.clone();
            proof {
                assert(zero_bytes@ =~= init_artifacts[c as int].0@);
                assert(one_bytes@ =~= init_artifacts[c as int].1@);
                assert(init_artifacts.deep_view()[c as int]
                    == init_artifacts[c as int].deep_view());
                assert(init_artifacts[c as int].deep_view().0 =~= init_artifacts[c as int].0@);
                assert(init_artifacts[c as int].deep_view().1 =~= init_artifacts[c as int].1@);
            }
            let one_bytes_again = one_bytes.clone();
            let zero_bytes_again = zero_bytes.clone();
            proof {
                assert(zero_bytes_again@ =~= zero_bytes@);
                assert(one_bytes_again@ =~= one_bytes@);
            }
            self.storage.pending.insert_blob(
                ContributionLocator::new(0, c as u64, 0, false),
                zero_bytes,
            );
            self.storage.pending.insert_blob(
                ContributionLocator::new(0, c as u64, 0, true),
                zero_bytes_again,
            );
            self.storage.pending.insert_blob(
                ContributionLocator::new(1, c as u64, 0, false),
                one_bytes,
            );
            self.storage.pending.insert_blob(
                ContributionLocator::new(1, c as u64, 0, true),
                one_bytes_again,
            );
            proof {
                let cu = c as u64;
                let a = init_artifacts.deep_view()[c as int].0;
                let b = init_artifacts.deep_view()[c as int].1;
                assert(self.store().blobs.dom().contains(plain_locator(0, cu, 0)));
                assert(self.store().blobs[plain_locator(0, cu, 0)] == a);
                assert(self.store().blobs[verified_locator(0, cu, 0)] == a);
                assert(self.store().blobs[plain_locator(1, cu, 0)] == b);
                assert(self.store().blobs[verified_locator(1, cu, 0)] == b);
                assert forall|l: ContributionLocator|
                    l != plain_locator(0, cu, 0) && l != verified_locator(0, cu, 0) && l
                        != plain_locator(1, cu, 0) && l != verified_locator(1, cu, 0) implies (
                self.store().blobs.dom().contains(l) == blobs_head.dom().contains(l)) && (
                blobs_head.dom().contains(l) ==> self.store().blobs[l] == blobs_head[l]) by {}
                assert forall|cc: u64| 0 <= cc < c implies {
                    &&& self.store().blobs.dom().contains(#[trigger] plain_locator(0, cc, 0))
                    &&& self.store().blobs.dom().contains(verified_locator(0, cc, 0))
                    &&& self.store().blobs.dom().contains(plain_locator(1, cc, 0))
                    &&& self.store().blobs.dom().contains(verified_locator(1, cc, 0))
                    &&& self.store().blobs[plain_locator(0, cc, 0)]
                        == init_artifacts.deep_view()[cc as int].0
                    &&& self.store().blobs[verified_locator(0, cc, 0)]
                        == init_artifacts.deep_view()[cc as int].0
                    &&& self.store().blobs[plain_locator(1, cc, 0)]
                        == init_artifacts.deep_view()[cc as int].1
                    &&& self.store().blobs[verified_locator(1, cc, 0)]
                        == init_artifacts.deep_view()[cc as int].1
                } by {
                    assert(plain_locator(0, cc, 0).chunk_id == cc);
                    assert(plain_locator(0, cc, 0) != plain_locator(0, cu, 0));
                }
            }
            c = c + 1;
            proof {
                let cu = (c - 1) as u64;
                assert forall|cc: u64| 0 <= cc < c implies {
                    &&& self.store().blobs.dom().contains(#[trigger] plain_locator(0, cc, 0))
                    &&& self.store().blobs.dom().contains(verified_locator(0, cc, 0))
                    &&& self.store().blobs.dom().contains(plain_locator(1, cc, 0))
                    &&& self.store().blobs.dom().contains(verified_locator(1, cc, 0))
                    &&& self.store().blobs[plain_locator(0, cc, 0)]
                        == init_artifacts.deep_view()[cc as int].0
                    &&& self.store().blobs[verified_locator(0, cc, 0)]
                        == init_artifacts.deep_view()[cc as int].0
                    &&& self.store().blobs[plain_locator(1, cc, 0)]
                        == init_artifacts.deep_view()[cc as int].1
                    &&& self.store().blobs[verified_locator(1, cc, 0)]
                        == init_artifacts.deep_view()[cc as int].1
                } by {
                    if cc == cu {
                        assert(self.store().blobs.dom().contains(plain_locator(0, cu, 0)));
                    } else {
                        assert(cc < cu);
                        assert(blobs_head.dom().contains(plain_locator(0, cc, 0)));
                        assert(blobs_head.dom().contains(verified_locator(0, cc, 0)));
                        assert(blobs_head.dom().contains(plain_locator(1, cc, 0)));
                        assert(blobs_head.dom().contains(verified_locator(1, cc, 0)));
                        assert(plain_locator(0, cc, 0) != plain_locator(0, cu, 0) && plain_locator(
                            0,
                            cc,
                            0,
                        ) != verified_locator(0, cu, 0) && plain_locator(0, cc, 0)
                            != plain_locator(1, cu, 0) && plain_locator(0, cc, 0)
                            != verified_locator(1, cu, 0));
                        assert(verified_locator(0, cc, 0) != plain_locator(0, cu, 0)
                            && verified_locator(0, cc, 0) != verified_locator(0, cu, 0)
                            && verified_locator(0, cc, 0) != plain_locator(1, cu, 0)
                            && verified_locator(0, cc, 0) != verified_locator(1, cu, 0));
                        assert(plain_locator(1, cc, 0) != plain_locator(0, cu, 0) && plain_locator(
                            1,
                            cc,
                            0,
                        ) != verified_locator(0, cu, 0) && plain_locator(1, cc, 0)
                            != plain_locator(1, cu, 0) && plain_locator(1, cc, 0)
                            != verified_locator(1, cu, 0));
                        assert(verified_locator(1, cc, 0) != plain_locator(0, cu, 0)
                            && verified_locator(1, cc, 0) != verified_locator(0, cu, 0)
                            && verified_locator(1, cc, 0) != plain_locator(1, cu, 0)
                            && verified_locator(1, cc, 0) != verified_locator(1, cu, 0));
                    }
                }
                assert forall|l: ContributionLocator|
                    !(init_locator_form(l, num as int) && l.chunk_id < c) implies (
                self.store().blobs.dom().contains(l) == pre_blobs.dom().contains(l)) && (
                pre_blobs.dom().contains(l) ==> self.store().blobs[l] == pre_blobs[l]) by {
                    assert(l != plain_locator(0, cu, 0) && l != verified_locator(0, cu, 0) && l
                        != plain_locator(1, cu, 0) && l != verified_locator(1, cu, 0));
                }
            }
        }
        self.storage.pending.insert_round(0, round);
        self.storage.pending.set_round_height(0);
        self.storage.save();
        proof {
            let num_i = num as int;
            let form = spec_new_round_form(
                num_i,
                0,
                started_at,
                seq![old(self).environment.coordinator_contributor@],
                seq![old(self).environment.coordinator_verifier@],
                Seq::new(num as nat, |i: int| old(self).environment.coordinator_verifier@),
            );
            assert(self.store().rounds =~= old(self).store().rounds.insert(0, form));
            assert(self.store().signatures =~= old(self).store().signatures);
            assert(self.store().round_files =~= old(self).store().round_files);
            assert forall|h: u64|
                #[trigger] self.store().rounds.dom().contains(h) implies self.store().rounds[h].height
                == h && self.store().rounds[h].wf() && self.store().rounds[h].chunks.len()
                == num_i by {
                if h != 0 {
                    assert(old(self).store().rounds.dom().contains(h));
                }
            }
        }
        Ok(())
    }
}

/// What `next_round` decides over a store copy: the transition from
/// the current round to the next one.
///
/// The ceremony must be initialized and its current round stored
/// under its own height. For a positive height the round must be
/// complete and a non-empty aggregated round file supplied, which is
/// recorded under the finished height. The next round is created from
/// the supplied participants as [`spec_round_new`] decides, provided
/// no round is stored under the next height yet and the starting
/// challenge of every chunk of the next round is already in the
/// store.
pub open spec fn spec_next_round(
    s: StoreStateV,
    num_chunks: int,
    started_at: u64,
    contributors: Seq<ParticipantV>,
    verifiers: Seq<ParticipantV>,
    chunk_verifiers: Seq<ParticipantV>,
    aggregated: Option<Seq<u8>>,
) -> Result<StoreStateV, CoordinatorError> {
    match spec_current_round_height(s) {
        Err(e) => Err(e),
        Ok(h) => if s.round_height is None {
            Err(CoordinatorError::RoundDoesNotExist)
        } else if !s.rounds.dom().contains(h) {
            Err(CoordinatorError::RoundDoesNotExist)
        } else if s.rounds[h].height != h {
            Err(CoordinatorError::RoundHeightMismatch)
        } else if h > 0 && !s.rounds[h].is_complete() {
            Err(CoordinatorError::RoundNotComplete)
        } else if h > 0 && !(aggregated matches Some(b) && b.len() > 0) {
            Err(CoordinatorError::RoundAggregationFailed)
        } else if h == u64::MAX {
            Err(CoordinatorError::StorageFailed)
        } else if s.rounds.dom().contains((h + 1) as u64) {
            Err(CoordinatorError::RoundAlreadyInitialized)
        } else if !(forall|c: u64|
            0 <= c < num_chunks ==> s.blobs.dom().contains(
                #[trigger] plain_locator((h + 1) as u64, c, 0),
            )) {
            Err(CoordinatorError::ContributionLocatorMissing)
        } else {
            match spec_round_new(
                num_chunks,
                (h + 1) as u64,
                started_at,
                contributors,
                verifiers,
                chunk_verifiers,
            ) {
                Err(e) => Err(e),
                Ok(v) => Ok(
                    StoreStateV {
                        rounds: s.rounds.insert((h + 1) as u64, v),
                        round_files: if h > 0 {
                            s.round_files.insert(h, aggregated->Some_0)
                        } else {
                            s.round_files
                        },
                        round_height: Some((h + 1) as u64),
                        ..s
                    },
                ),
            }
        },
    }
}

impl Coordinator {
    /// Initiates the next round of the ceremony, as
    /// [`spec_next_round`] decides: checks that the current round is
    /// complete, records the supplied aggregated round file, creates
    /// the next round from the supplied participants, advances the
    /// round height, and covers all of it with a single save.
    ///
    /// On success, returns the new round height.
    pub fn next_round(
        &mut self,
        started_at: u64,
        contributors: Vec<Participant>,
        verifiers: Vec<Participant>,
        chunk_verifiers: Vec<Participant>,
        aggregated: Option<Vec<u8>>,
    ) -> (r: Result<u64, CoordinatorError>)
        requires
            old(self).wf(),
        ensures
            final(self).wf(),
            final(self).environment == old(self).environment,
            final(self).queue == old(self).queue,
            final(self).pending_verifications == old(self).pending_verifications,
            match spec_next_round(
                old(self).store(),
                old(self).environment.number_of_chunks as int,
                started_at,
                contributors.deep_view(),
                verifiers.deep_view(),
                chunk_verifiers.deep_view(),
                aggregated.deep_view(),
            ) {
                Ok(sv) => {
                    &&& r == Ok::<u64, CoordinatorError>(spec_height(sv))
                    &&& final(self).store() == sv
                    &&& final(self).storage.durable@ == sv
                    &&& spec_height(sv) == spec_height(old(self).store()) + 1
                },
                Err(e) => {
                    &&& r == Err::<u64, CoordinatorError>(e)
                    &&& final(self).store() == old(self).store()
                    &&& final(self).storage.durable@ == old(self).storage.durable@
                },
            },
    {
        let ghost decision = spec_next_round(
            old(self).store(),
            old(self).environment.number_of_chunks as int,
            started_at,
            contributors.deep_view(),
            verifiers.deep_view(),
            chunk_verifiers.deep_view(),
            aggregated.deep_view(),
        );
        let num = self.environment.number_of_chunks;
        let round_height = match self.current_round_height() {
            Ok(h) => h,
            Err(e) => {
                return Err(e);
            },
        };
        if self.storage.pending.round_height.is_none() {
            return Err(CoordinatorError::RoundDoesNotExist);
        }
        let round = match self.get_round(round_height) {
            Ok(round) => round,
            Err(_) => {
                return Err(CoordinatorError::RoundDoesNotExist);
            },
        };
        if round.get_height() != round_height {
            return Err(CoordinatorError::RoundHeightMismatch);
        }
        if round_height > 0 {
            if !round.is_complete() {
                return Err(CoordinatorError::RoundNotComplete);
            }
            match &aggregated {
                Some(bytes) => {
                    if bytes.len() == 0 {
                        return Err(CoordinatorError::RoundAggregationFailed);
                    }
                },
                None => {
                    return Err(CoordinatorError::RoundAggregationFailed);
                },
            }
        }
        if round_height == u64::MAX {
            return Err(CoordinatorError::StorageFailed);
        }
        let next_height = round_height + 1;
        if self.storage.pending.contains_round(next_height) {
            return Err(CoordinatorError::RoundAlreadyInitialized);
        }
        let mut c: usize = 0;
        while c < num
            invariant
                0 <= c <= num,
                old(self).wf(),
                self.environment == old(self).environment,
                self.storage == old(self).storage,
                self.queue == old(self).queue,
                self.pending_verifications == old(self).pending_verifications,
                num == self.environment.number_of_chunks,
                spec_current_round_height(old(self).store()) == Ok::<u64, CoordinatorError>(
                    round_height,
                ),
                old(self).store().round_height is Some,
                old(self).store().rounds.dom().contains(round_height),
                old(self).store().rounds[round_height].height == round_height,
                round_height > 0 ==> old(self).store().rounds[round_height].is_complete(),
                round_height > 0 ==> (aggregated.deep_view() matches Some(b) && b.len() > 0),
                round_height < u64::MAX,
                next_height == round_height + 1,
                !old(self).store().rounds.dom().contains(next_height),
                forall|j: u64|
                    0 <= j < c ==> self.store().blobs.dom().contains(
                        #[trigger] plain_locator(next_height, j, 0),
                    ),
            decreases num - c,
        {
            if !self.storage.pending.contains_blob(
                ContributionLocator::new(next_height, c as u64, 0, false),
            ) {
                proof {
                    assert(!self.store().blobs.dom().contains(
                        plain_locator(next_height, c as u64, 0),
                    ));
                }
                return Err(CoordinatorError::ContributionLocatorMissing);
            }
            c = c + 1;
        }
        let new_round = match Round::new(
            num,
            next_height,
            started_at,
            contributors,
            verifiers,
            chunk_verifiers,
        ) {
            Ok(round) => round,
            Err(e) => {
                return Err(e);
            },
        };
        self.storage.pending.insert_round(next_height, new_round);
        if round_height > 0 {
            let bytes = match aggregated {
                Some(bytes) => bytes,
                None => {
                    return Err(CoordinatorError::RoundAggregationFailed);
                },
            };
            proof {
                assert(bytes@ =~= aggregated.deep_view()->Some_0);
            }
            self.storage.pending.insert_round_file(round_height, bytes);
        }
        self.storage.pending.set_round_height(next_height);
        self.storage.save();
        proof {
            let sv = decision->Ok_0;
            assert(self.store().rounds =~= sv.rounds);
            assert(self.store().round_files =~= sv.round_files);
            assert(self.store().blobs =~= sv.blobs);
            assert(self.store().signatures =~= sv.signatures);
            assert(self.store() == sv);
            let num_i = old(self).environment.number_of_chunks as int;
            assert forall|h: u64|
                #[trigger] self.store().rounds.dom().contains(h) implies self.store().rounds[h].height
                == h && self.store().rounds[h].wf() && self.store().rounds[h].chunks.len()
                == num_i by {
                if h != next_height {
                    assert(old(self).store().rounds.dom().contains(h));
                }
            }
            assert forall|h: u64, cc: u64|
                h <= spec_height(self.store()) && 0 <= cc < num_i implies self.store().blobs.dom().contains(
                #[trigger] plain_locator(h, cc, 0),
            ) by {
                if h < next_height {
                    assert(h <= spec_height(old(self).store()));
                    assert(old(self).store().blobs.dom().contains(plain_locator(h, cc, 0)));
                }
            }
        }
        Ok(next_height)
    }
}

/// The sequence with the first occurrence of the given task removed,
/// and unchanged when the task does not occur.
pub open spec fn spec_remove_first(s: Seq<Task>, t: Task) -> Seq<Task>
    decreases s.len(),
{
    if s.len() == 0 {
        s
    } else if s[0] == t {
        s.drop_first()
    } else {
        seq![s[0]] + spec_remove_first(s.drop_first(), t)
    }
}

/// What `add_contribution` decides at the coordinator: the locator of
/// the pending slot is computed strictly, and the contribution
/// recorded in the current round, by an authorized contributor
/// holding the chunk lock, never in the initialization round.
pub open spec fn spec_coordinator_add_contribution(
    s: StoreStateV,
    chunk_id: u64,
    p: ParticipantV,
) -> Result<(StoreStateV, ContributionLocator), CoordinatorError> {
    if !p.is_contributor() {
        Err(CoordinatorError::UnauthorizedChunkContributor)
    } else {
        match spec_current_round(s) {
            Err(e) => Err(e),
            Ok(round) => if !round.authorized_contributor(p) {
                Err(CoordinatorError::UnauthorizedChunkContributor)
            } else if spec_height(s) == 0 {
                Err(CoordinatorError::RoundHeightIsZero)
            } else if !(chunk_id < round.chunks.len() && round.chunks[chunk_id as int].locked_by(
                p,
            )) {
                Err(CoordinatorError::ChunkNotLockedOrByWrongParticipant)
            } else {
                match spec_next_contribution_locator_strict(s, chunk_id) {
                    Err(e) => Err(e),
                    Ok(locator) => match round.spec_add_contribution(
                        chunk_id,
                        locator.contribution_id,
                        p,
                        locator,
                    ) {
                        Err(e) => Err(e),
                        Ok(v) => Ok(
                            (
                                StoreStateV {
                                    rounds: s.rounds.insert(spec_height(s), v),
                                    ..s
                                },
                                locator,
                            ),
                        ),
                    },
                }
            },
        }
    }
}

/// The prechecks of `verify_contribution`: the current round holds
/// the chunk, the coordinator verifier holds its lock, the named
/// contribution exists, is not the initialization record and is not
/// yet verified, and both its artifact and its file signature are in
/// the store. Answers the current height.
pub open spec fn spec_verify_precheck(
    s: StoreStateV,
    verifier: ParticipantV,
    chunk_id: u64,
    contribution_id: u64,
) -> Result<u64, CoordinatorError> {
    match spec_current_round(s) {
        Err(e) => Err(e),
        Ok(round) => {
            let h = spec_height(s);
            if h == u64::MAX {
                Err(CoordinatorError::StorageFailed)
            } else if chunk_id >= round.chunks.len() {
                Err(CoordinatorError::ChunkMissing)
            } else {
                let chunk = round.chunks[chunk_id as int];
                if !chunk.locked_by(verifier) {
                    Err(CoordinatorError::ChunkNotLockedOrByWrongParticipant)
                } else if contribution_id >= chunk.contributions.len() {
                    Err(CoordinatorError::ContributionMissing)
                } else if contribution_id == 0 {
                    Err(CoordinatorError::VerificationOnContributionIdZero)
                } else if chunk.contributions[contribution_id as int].verified {
                    Err(CoordinatorError::ContributionAlreadyVerified)
                } else if !s.blobs.dom().contains(plain_locator(h, chunk_id, contribution_id)) {
                    Err(CoordinatorError::ContributionLocatorMissing)
                } else if !s.signatures.dom().contains(
                    ContributionSignatureLocator {
                        round_height: h,
                        chunk_id,
                        contribution_id,
                        is_verified: false,
                    },
                ) {
                    Err(CoordinatorError::ContributionLocatorMissing)
                } else {
                    Ok(h)
                }
            }
        },
    }
}

/// True when the verification outcome is accepted: the black-box
/// verification produced non-empty output, and the stored file
/// signature's response hash is the content hash of the uploaded
/// artifact.
pub open spec fn spec_verification_accepted(
    s: StoreStateV,
    h: u64,
    chunk_id: u64,
    contribution_id: u64,
    outcome: Option<Seq<u8>>,
) -> bool {
    &&& outcome matches Some(b) && b.len() > 0
    &&& content_hash_of(s.blobs[plain_locator(h, chunk_id, contribution_id)])
        == s.signatures[
        ContributionSignatureLocator {
            round_height: h,
            chunk_id,
            contribution_id,
            is_verified: false,
        }
    ].state.response_hash
}

impl Coordinator {
    /// True when the two byte vectors hold the same bytes.
    fn bytes_eq(a: &Vec<u8>, b: &Vec<u8>) -> (r: bool)
        ensures
            r == (a@ == b@),
    {
        if a.len() != b.len() {
            proof {
                assert(a@.len() != b@.len());
            }
            return false;
        }
        let n = a.len();
        let mut i: usize = 0;
        while i < n
            invariant
                0 <= i <= n,
                n == a.len(),
                n == b.len(),
                forall|j: int| 0 <= j < i ==> a@[j] == b@[j],
            decreases n - i,
        {
            if a[i] != b[i] {
                return false;
            }
            i = i + 1;
        }
        proof {
            assert(a@ =~= b@);
        }
        true
    }

    /// Removes the first occurrence of the given task from the list
    /// of pending verifications, if it is there.
    fn remove_pending_verification(&mut self, task: Task)
        ensures
            final(self).pending_verifications@ == spec_remove_first(
                old(self).pending_verifications@,
                task,
            ),
            final(self).environment == old(self).environment,
            final(self).storage == old(self).storage,
            final(self).queue == old(self).queue,
    {
        let n = self.pending_verifications.len();
        let mut i: usize = 0;
        while i < n
            invariant
                0 <= i <= n,
                n == self.pending_verifications.len(),
                self.environment == old(self).environment,
                self.storage == old(self).storage,
                self.queue == old(self).queue,
                self.pending_verifications == old(self).pending_verifications,
                forall|j: int| 0 <= j < i ==> self.pending_verifications@[j] != task,
            decreases n - i,
        {
            if self.pending_verifications[i] == task {
                self.pending_verifications.remove(i);
                proof {
                    lemma_remove_first_at(old(self).pending_verifications@, task, i as int);
                }
                return ;
            }
            i = i + 1;
        }
        proof {
            lemma_remove_first_absent(self.pending_verifications@, task);
        }
    }
}

impl Coordinator {
    /// Returns a copy of the artifact stored under the given locator
    /// coordinates: how a contributor downloads its challenge.
    pub fn get_challenge(
        &self,
        round_height: u64,
        chunk_id: u64,
        contribution_id: u64,
        is_verified: bool,
    ) -> (r: Result<Vec<u8>, CoordinatorError>)
        requires
            self.wf(),
        ensures
            match r {
                Ok(bytes) => self.store().blobs.dom().contains(
                    ContributionLocator { round_height, chunk_id, contribution_id, is_verified },
                ) && bytes@ == self.store().blobs[
                    ContributionLocator { round_height, chunk_id, contribution_id, is_verified }
                ],
                Err(e) => e == CoordinatorError::ContributionLocatorMissing
                    && !self.store().blobs.dom().contains(
                    ContributionLocator { round_height, chunk_id, contribution_id, is_verified },
                ),
            },
    {
        let locator = ContributionLocator::new(round_height, chunk_id, contribution_id, is_verified);
        match self.storage.pending.get_blob(locator) {
            Some(bytes) => {
                let copy = bytes.clone();
                proof {
                    assert(copy@ =~= bytes@);
                }
                Ok(copy)
            },
            None => Err(CoordinatorError::ContributionLocatorMissing),
        }
    }

    /// Writes an uploaded contribution artifact to the store under the
    /// given locator, refusing empty uploads.
    pub fn write_contribution(&mut self, locator: ContributionLocator, contribution: Vec<u8>) -> (r:
        Result<(), CoordinatorError>)
        requires
            old(self).wf(),
        ensures
            final(self).wf(),
            final(self).environment == old(self).environment,
            final(self).queue == old(self).queue,
            final(self).pending_verifications == old(self).pending_verifications,
            final(self).storage.durable@ == old(self).storage.durable@,
            match r {
                Ok(()) => contribution@.len() > 0 && final(self).store() == (StoreStateV {
                    blobs: old(self).store().blobs.insert(locator, contribution@),
                    ..old(self).store()
                }),
                Err(e) => e == CoordinatorError::ContributionFileSizeMismatch && contribution@.len()
                    == 0 && final(self).store() == old(self).store(),
            },
    {
        if contribution.len() == 0 {
            return Err(CoordinatorError::ContributionFileSizeMismatch);
        }
        self.storage.pending.insert_blob(locator, contribution);
        Ok(())
    }

    /// Writes the file signature uploaded beside a contribution,
    /// refusing it when the artifact it speaks of is not in the store
    /// or its recorded response hash is not the content hash of those
    /// bytes.
    pub fn write_contribution_file_signature(
        &mut self,
        locator: ContributionSignatureLocator,
        signature: ContributionFileSignature,
    ) -> (r: Result<(), CoordinatorError>)
        requires
            old(self).wf(),
        ensures
            final(self).wf(),
            final(self).environment == old(self).environment,
            final(self).queue == old(self).queue,
            final(self).pending_verifications == old(self).pending_verifications,
            final(self).storage.durable@ == old(self).storage.durable@,
            ({
                let blob_locator = ContributionLocator {
                    round_height: locator.round_height,
                    chunk_id: locator.chunk_id,
                    contribution_id: locator.contribution_id,
                    is_verified: locator.is_verified,
                };
                match r {
                    Ok(()) => {
                        &&& old(self).store().blobs.dom().contains(blob_locator)
                        &&& content_hash_of(old(self).store().blobs[blob_locator])
                            == signature@.state.response_hash
                        &&& final(self).store() == (StoreStateV {
                            signatures: old(self).store().signatures.insert(locator, signature@),
                            ..old(self).store()
                        })
                    },
                    Err(e) => {
                        &&& final(self).store() == old(self).store()
                        &&& (e == CoordinatorError::ContributionLocatorMissing && !old(
                            self,
                        ).store().blobs.dom().contains(blob_locator)) || (e
                            == CoordinatorError::ContributionHashMismatch && old(
                            self,
                        ).store().blobs.dom().contains(blob_locator) && content_hash_of(
                            old(self).store().blobs[blob_locator],
                        ) != signature@.state.response_hash)
                    },
                }
            }),
    {
        let blob_locator = ContributionLocator::new(
            locator.round_height,
            locator.chunk_id,
            locator.contribution_id,
            locator.is_verified,
        );
        let computed = match self.storage.pending.get_blob(blob_locator) {
            Some(bytes) => compute_hash(bytes.as_slice()),
            None => {
                return Err(CoordinatorError::ContributionLocatorMissing);
            },
        };
        if !Self::bytes_eq(&computed, &signature.state.response_hash) {
            return Err(CoordinatorError::ContributionHashMismatch);
        }
        self.storage.pending.insert_signature(locator, signature);
        Ok(())
    }

    /// Attempts to add a contribution for a given chunk from a given
    /// participant, as [`spec_coordinator_add_contribution`] decides.
    ///
    /// On success, returns the locator the contribution was recorded
    /// under; the chunk lock is released.
    pub fn add_contribution(&mut self, chunk_id: u64, participant: &Participant) -> (r: Result<
        ContributionLocator,
        CoordinatorError,
    >)
        requires
            old(self).wf(),
        ensures
            final(self).wf(),
            final(self).environment == old(self).environment,
            final(self).queue == old(self).queue,
            final(self).pending_verifications == old(self).pending_verifications,
            final(self).storage.durable@ == old(self).storage.durable@,
            match spec_coordinator_add_contribution(old(self).store(), chunk_id, participant@) {
                Ok((sv, locator)) => r == Ok::<ContributionLocator, CoordinatorError>(locator)
                    && final(self).store() == sv,
                Err(e) => r == Err::<ContributionLocator, CoordinatorError>(e)
                    && final(self).store() == old(self).store(),
            },
    {
        if !participant.is_contributor() {
            return Err(CoordinatorError::UnauthorizedChunkContributor);
        }
        let mut round = match self.current_round() {
            Ok(round) => round,
            Err(e) => {
                return Err(e);
            },
        };
        if !round.is_authorized_contributor(participant) {
            return Err(CoordinatorError::UnauthorizedChunkContributor);
        }
        let round_height = match self.current_round_height() {
            Ok(h) => h,
            Err(_) => {
                return Err(CoordinatorError::StorageFailed);
            },
        };
        if round_height == 0 {
            return Err(CoordinatorError::RoundHeightIsZero);
        }
        if !round.is_chunk_locked_by(chunk_id, participant) {
            return Err(CoordinatorError::ChunkNotLockedOrByWrongParticipant);
        }
        let locator = match self.next_contribution_locator_strict(chunk_id) {
            Ok(locator) => locator,
            Err(e) => {
                return Err(e);
            },
        };
        match round.add_contribution(
            chunk_id,
            locator.contribution_id,
            participant.clone(),
            locator,
        ) {
            Ok(()) => {},
            Err(e) => {
                return Err(e);
            },
        }
        self.storage.pending.insert_round(round_height, round);
        Ok(locator)
    }

    /// Acquires the chunk lock for the coordinator's own verifier in
    /// order to verify the given contribution, whose artifact must be
    /// in the store.
    pub fn try_lock_verify(&mut self, chunk_id: u64, contribution_id: u64) -> (r: Result<
        (),
        CoordinatorError,
    >)
        requires
            old(self).wf(),
        ensures
            final(self).wf(),
            final(self).environment == old(self).environment,
            final(self).queue == old(self).queue,
            final(self).pending_verifications == old(self).pending_verifications,
            final(self).storage.durable@ == old(self).storage.durable@,
            match spec_current_round_height(old(self).store()) {
                Err(e) => r == Err::<(), CoordinatorError>(e) && final(self).store() == old(
                    self,
                ).store(),
                Ok(h) => if !old(self).store().blobs.dom().contains(
                    plain_locator(h, chunk_id, contribution_id),
                ) {
                    r == Err::<(), CoordinatorError>(CoordinatorError::ContributionLocatorMissing)
                        && final(self).store() == old(self).store()
                } else {
                    match spec_coordinator_try_lock(
                        old(self).store(),
                        chunk_id,
                        old(self).environment.coordinator_verifier@,
                    ) {
                        Ok(sv) => r == Ok::<(), CoordinatorError>(()) && final(self).store() == sv,
                        Err(e) => r == Err::<(), CoordinatorError>(e) && final(self).store() == old(
                            self,
                        ).store(),
                    }
                },
            },
    {
        let round_height = match self.current_round_height() {
            Ok(h) => h,
            Err(e) => {
                return Err(e);
            },
        };
        if !self.contribution_locator_exists(round_height, chunk_id, contribution_id, false) {
            return Err(CoordinatorError::ContributionLocatorMissing);
        }
        let verifier = self.environment.coordinator_verifier.clone();
        self.try_lock_chunk(chunk_id, verifier)
    }
}

impl Coordinator {
    /// Runs the verification step for a contribution, with the
    /// black-box verification outcome supplied by the caller: `Some`
    /// non-empty bytes are the verified output seeding the next
    /// round's starting challenge, `None` means the cryptographic
    /// check rejected the contribution.
    ///
    /// The contribution is accepted only when an outcome was produced
    /// and the stored file signature's response hash is the content
    /// hash of the uploaded artifact. An accepted contribution is
    /// marked verified, its verified copy is stored beside the
    /// artifact, and — when it completes its chunk — the outcome
    /// bytes are stored as the starting challenge of the next round.
    /// A rejected contribution is discarded, its artifact dropped,
    /// and its contributor banned with its pending tasks cleared.
    /// Either way the chunk lock is released and the verification
    /// task retired.
    pub fn verify_contribution(
        &mut self,
        chunk_id: u64,
        contribution_id: u64,
        outcome: Option<Vec<u8>>,
    ) -> (r: Result<(), CoordinatorError>)
        requires
            old(self).wf(),
        ensures
            final(self).wf(),
            final(self).environment == old(self).environment,
            final(self).storage.durable@ == old(self).storage.durable@,
            match spec_verify_precheck(
                old(self).store(),
                old(self).environment.coordinator_verifier@,
                chunk_id,
                contribution_id,
            ) {
                Err(e) => {
                    &&& r == Err::<(), CoordinatorError>(e)
                    &&& final(self).store() == old(self).store()
                    &&& final(self).queue == old(self).queue
                    &&& final(self).pending_verifications == old(self).pending_verifications
                },
                Ok(h) => {
                    let s = old(self).store();
                    let round = s.rounds[h];
                    let chunk = round.chunks[chunk_id as int];
                    let verifier = old(self).environment.coordinator_verifier@;
                    let sigloc = ContributionSignatureLocator {
                        round_height: h,
                        chunk_id,
                        contribution_id,
                        is_verified: false,
                    };
                    let plain_bytes = s.blobs[plain_locator(h, chunk_id, contribution_id)];
                    if spec_verification_accepted(
                        s,
                        h,
                        chunk_id,
                        contribution_id,
                        outcome.deep_view(),
                    ) {
                        &&& r == Ok::<(), CoordinatorError>(())
                        &&& final(self).store().rounds == s.rounds.insert(
                            h,
                            round.spec_verify_contribution(
                                chunk_id,
                                contribution_id,
                                verifier,
                                verified_locator(h, chunk_id, contribution_id),
                            )->Ok_0,
                        )
                        &&& final(self).store().blobs == (
                        if chunk.contributions.len() == round.contributors.len() + 1 {
                            s.blobs.insert(
                                verified_locator(h, chunk_id, contribution_id),
                                plain_bytes,
                            ).insert(
                                plain_locator((h + 1) as u64, chunk_id, 0),
                                outcome.deep_view()->Some_0,
                            ).insert(
                                verified_locator((h + 1) as u64, chunk_id, 0),
                                outcome.deep_view()->Some_0,
                            )
                        } else {
                            s.blobs.insert(
                                verified_locator(h, chunk_id, contribution_id),
                                plain_bytes,
                            )
                        })
                        &&& final(self).store().signatures == s.signatures
                        &&& final(self).store().round_files == s.round_files
                        &&& final(self).store().round_height == s.round_height
                        &&& final(self).queue == old(self).queue
                        &&& final(self).pending_verifications@ == spec_remove_first(
                            old(self).pending_verifications@,
                            Task { chunk_id, contribution_id },
                        )
                        &&& final(self).store().blobs.dom().contains(
                            verified_locator(h, chunk_id, contribution_id),
                        )
                        &&& content_hash_of(
                            final(self).store().blobs[
                                verified_locator(h, chunk_id, contribution_id)
                            ],
                        ) == s.signatures[sigloc].state.response_hash
                    } else {
                        &&& r == Err::<(), CoordinatorError>(
                            CoordinatorError::VerificationFailed,
                        )
                        &&& final(self).store().rounds == s.rounds.insert(
                            h,
                            round.spec_discard_contribution(chunk_id, contribution_id)->Ok_0,
                        )
                        &&& final(self).store().blobs == s.blobs.remove(
                            plain_locator(h, chunk_id, contribution_id),
                        )
                        &&& final(self).store().signatures == s.signatures
                        &&& final(self).store().round_files == s.round_files
                        &&& final(self).store().round_height == s.round_height
                        &&& final(self).queue@ == crate::queue::spec_ban(
                            old(self).queue@,
                            ParticipantV::Contributor(
                                chunk.contributions[contribution_id as int].contributor_id->Some_0,
                            ),
                        )
                        &&& final(self).pending_verifications@ == spec_remove_first(
                            old(self).pending_verifications@,
                            Task { chunk_id, contribution_id },
                        )
                    }
                },
            },
    {
        let verifier = self.environment.coordinator_verifier.clone();
        let round_height = match self.current_round_height() {
            Ok(h) => h,
            Err(e) => {
                return Err(e);
            },
        };
        let mut round = match self.get_round(round_height) {
            Ok(round) => round,
            Err(_) => {
                return Err(CoordinatorError::RoundDoesNotExist);
            },
        };
        if round.get_height() != round_height {
            return Err(CoordinatorError::RoundHeightMismatch);
        }
        if round_height == u64::MAX {
            return Err(CoordinatorError::StorageFailed);
        }
        let num_contributors = round.num_contributors();
        let contributor_id: String;
        let is_final: bool;
        match round.get_chunk(chunk_id) {
            Ok(chunk) => {
                if !chunk.is_locked_by(&verifier) {
                    return Err(CoordinatorError::ChunkNotLockedOrByWrongParticipant);
                }
                match chunk.get_contribution(contribution_id) {
                    Ok(contribution) => {
                        if contribution_id == 0 {
                            return Err(CoordinatorError::VerificationOnContributionIdZero);
                        }
                        if contribution.is_verified() {
                            return Err(CoordinatorError::ContributionAlreadyVerified);
                        }
                        match contribution.get_contributor_id() {
                            Some(id) => {
                                contributor_id = id.clone();
                            },
                            None => {
                                proof {
                                    assert(!chunk@.contributions[contribution_id as int].is_initial());
                                }
                                return unreached();
                            },
                        }
                    },
                    Err(e) => {
                        return Err(e);
                    },
                }
                is_final = chunk.current_contribution_id() == num_contributors;
            },
            Err(e) => {
                return Err(e);
            },
        }
        let plain_loc = ContributionLocator::new(round_height, chunk_id, contribution_id, false);
        let sig_loc = ContributionSignatureLocator::new(
            round_height,
            chunk_id,
            contribution_id,
            false,
        );
        let blob = match self.get_challenge(round_height, chunk_id, contribution_id, false) {
            Ok(bytes) => bytes,
            Err(e) => {
                return Err(e);
            },
        };
        let expected_hash: Vec<u8>;
        match self.storage.pending.get_signature(sig_loc) {
            Some(signature) => {
                expected_hash = signature.state.response_hash.clone();
                proof {
                    assert(expected_hash@ =~= signature.state.response_hash@);
                }
            },
            None => {
                return Err(CoordinatorError::ContributionLocatorMissing);
            },
        }
        let computed = compute_hash(blob.as_slice());
        let hash_ok = Self::bytes_eq(&computed, &expected_hash);
        let outcome_ok = match &outcome {
            Some(bytes) => bytes.len() > 0,
            None => false,
        };
        let task = Task::new(chunk_id, contribution_id);
        if hash_ok && outcome_ok {
            let verified_loc = ContributionLocator::new(
                round_height,
                chunk_id,
                contribution_id,
                true,
            );
            match round.verify_contribution(chunk_id, contribution_id, &verifier, verified_loc) {
                Ok(()) => {},
                Err(_) => {
                    return unreached();
                },
            }
            self.storage.pending.insert_round(round_height, round);
            self.storage.pending.insert_blob(verified_loc, blob);
            if is_final {
                let ghost outcome_view = outcome.deep_view();
                let next_bytes = match outcome {
                    Some(bytes) => bytes,
                    None => unreached(),
                };
                proof {
                    assert(next_bytes.deep_view() == outcome_view->Some_0);
                    assert(next_bytes@ =~= next_bytes.deep_view());
                }
                let next_bytes_copy = next_bytes.clone();
                proof {
                    assert(next_bytes_copy@ =~= next_bytes@);
                }
                self.storage.pending.insert_blob(
                    ContributionLocator::new(round_height + 1, chunk_id, 0, false),
                    next_bytes_copy,
                );
                self.storage.pending.insert_blob(
                    ContributionLocator::new(round_height + 1, chunk_id, 0, true),
                    next_bytes,
                );
            }
            self.remove_pending_verification(task);
            proof {
                let num_i = old(self).environment.number_of_chunks as int;
                assert forall|hh: u64|
                    #[trigger] self.store().rounds.dom().contains(hh) implies self.store().rounds[
                    hh
                ].height == hh && self.store().rounds[hh].wf() && self.store().rounds[hh].chunks.len()
                    == num_i by {
                    if hh != round_height {
                        assert(old(self).store().rounds.dom().contains(hh));
                    }
                }
                if self.store().round_height is Some {
                    assert forall|hh: u64, cc: u64|
                        hh <= spec_height(self.store()) && 0 <= cc
                            < num_i implies self.store().blobs.dom().contains(
                        #[trigger] plain_locator(hh, cc, 0),
                    ) by {
                        assert(old(self).store().round_height is Some);
                        assert(old(self).store().blobs.dom().contains(plain_locator(hh, cc, 0)));
                    }
                }
            }
            Ok(())
        } else {
            match round.discard_contribution(chunk_id, contribution_id) {
                Ok(()) => {},
                Err(_) => {
                    return unreached();
                },
            }
            self.storage.pending.insert_round(round_height, round);
            self.storage.pending.remove_blob(plain_loc);
            let contributor = Participant::Contributor(contributor_id);
            let ghost queue_before = self.queue@;
            match self.queue.ban(&contributor) {
                Ok(()) => {
                    proof {
                        let i = choose|i: int|
                            {
                                &&& 0 <= i < queue_before.entries.len()
                                &&& (#[trigger] queue_before.entries[i]).participant
                                    == contributor@
                                &&& self.queue@ == (ParticipantQueueV {
                                    entries: queue_before.entries.update(
                                        i,
                                        banned_form(queue_before.entries[i]),
                                    ),
                                    ..queue_before
                                })
                            };
                        assert(self.queue@.entries =~= crate::queue::spec_ban(
                            queue_before,
                            contributor@,
                        ).entries);
                    }
                },
                Err(_) => {
                    proof {
                        assert forall|j: int|
                            0 <= j < queue_before.entries.len() implies (
                        #[trigger] queue_before.entries[j]).participant != contributor@ by {}
                        assert(self.queue@.entries =~= crate::queue::spec_ban(
                            queue_before,
                            contributor@,
                        ).entries);
                    }
                },
            }
            self.remove_pending_verification(task);
            proof {
                let num_i = old(self).environment.number_of_chunks as int;
                assert forall|hh: u64|
                    #[trigger] self.store().rounds.dom().contains(hh) implies self.store().rounds[
                    hh
                ].height == hh && self.store().rounds[hh].wf() && self.store().rounds[hh].chunks.len()
                    == num_i by {
                    if hh != round_height {
                        assert(old(self).store().rounds.dom().contains(hh));
                    }
                }
                if self.store().round_height is Some {
                    assert forall|hh: u64, cc: u64|
                        hh <= spec_height(self.store()) && 0 <= cc
                            < num_i implies self.store().blobs.dom().contains(
                        #[trigger] plain_locator(hh, cc, 0),
                    ) by {
                        assert(old(self).store().round_height is Some);
                        assert(old(self).store().blobs.dom().contains(plain_locator(hh, cc, 0)));
                        assert(plain_locator(hh, cc, 0) != plain_locator(
                            round_height,
                            chunk_id,
                            contribution_id,
                        ));
                    }
                }
            }
            Err(CoordinatorError::VerificationFailed)
        }
    }
}

/// A round with every chunk lock held by the given participant
/// released, as eviction does.
pub open spec fn spec_release_locks(r: RoundV, p: ParticipantV) -> RoundV {
    RoundV {
        chunks: Seq::new(
            r.chunks.len(),
            |j: int|
                if r.chunks[j].locked_by(p) {
                    ChunkV { lock_holder: None, ..r.chunks[j] }
                } else {
                    r.chunks[j]
                },
        ),
        ..r
    }
}

/// The tasks dispatched to a freshly promoted contributor: one per
/// chunk, under the contribution id its upload will take.
pub open spec fn spec_dispatch_tasks(round: RoundV) -> Seq<Task> {
    Seq::new(
        round.chunks.len(),
        |c: int|
            Task {
                chunk_id: c as u64,
                contribution_id: round.chunks[c].contributions.len() as u64,
            },
    )
}

impl Coordinator {
    /// Admits a contributor to the queue, as
    /// [`ParticipantQueueV::spec_add`] decides: duplicates are
    /// refused and leave the queue — and the original position —
    /// exactly as they were.
    pub fn add_to_queue(
        &mut self,
        participant: Participant,
        ip: String,
        capacity: u64,
        now: u64,
    ) -> (r: Result<(), CoordinatorError>)
        requires
            old(self).wf(),
        ensures
            final(self).wf(),
            final(self).environment == old(self).environment,
            final(self).storage == old(self).storage,
            final(self).pending_verifications == old(self).pending_verifications,
            match old(self).queue@.spec_add(participant@, ip@, capacity, now) {
                Ok(v) => r == Ok::<(), CoordinatorError>(()) && final(self).queue@ == v,
                Err(e) => r == Err::<(), CoordinatorError>(e) && final(self).queue@ == old(
                    self,
                ).queue@,
            },
    {
        self.queue.add_to_queue(participant, ip, capacity, now)
    }

    /// Records that the given participant is still alive. A repeated
    /// heartbeat with the same clock reading is a no-op.
    pub fn heartbeat(&mut self, participant: &Participant, now: u64) -> (r: Result<
        (),
        CoordinatorError,
    >)
        requires
            old(self).wf(),
        ensures
            final(self).wf(),
            final(self).environment == old(self).environment,
            final(self).storage == old(self).storage,
            final(self).pending_verifications == old(self).pending_verifications,
            match r {
                Ok(()) => {
                    &&& old(self).queue@.contains(participant@)
                    &&& exists|i: int|
                        {
                            &&& 0 <= i < old(self).queue@.entries.len()
                            &&& (#[trigger] old(self).queue@.entries[i]).participant
                                == participant@
                            &&& final(self).queue@ == (ParticipantQueueV {
                                entries: old(self).queue@.entries.update(
                                    i,
                                    QueueEntryV {
                                        last_heartbeat: now,
                                        ..old(self).queue@.entries[i]
                                    },
                                ),
                                ..old(self).queue@
                            })
                        }
                },
                Err(e) => {
                    &&& e == CoordinatorError::ParticipantMissing
                    &&& !old(self).queue@.contains(participant@)
                    &&& final(self).queue@ == old(self).queue@
                },
            },
    {
        self.queue.heartbeat(participant, now)
    }

    /// Answers a contributor's status poll, as
    /// [`ParticipantQueueV::spec_status`] decides.
    pub fn contributor_queue_status(&self, participant: &Participant) -> (r: ContributorStatus)
        requires
            self.wf(),
        ensures
            r == self.queue@.spec_status(participant@),
    {
        self.queue.contributor_queue_status(participant)
    }

    /// The queue entry of the given participant, if any: its pending
    /// tasks and standing.
    pub fn current_participant_info(&self, participant: &Participant) -> (r: Option<&QueueEntry>)
        ensures
            match r {
                Some(entry) => self.queue@.contains(participant@) && entry@.participant
                    == participant@ && self.queue@.entries.contains(entry@),
                None => !self.queue@.contains(participant@),
            },
    {
        self.queue.current_participant_info(participant)
    }

    /// The verification tasks waiting for the coordinator verifier.
    pub fn get_pending_verifications(&self) -> (r: &Vec<Task>)
        ensures
            r@ == self.pending_verifications@,
    {
        &self.pending_verifications
    }

    /// One tick of the dispatcher, as the update endpoint drives it:
    /// evicts the first active contributor whose heartbeat has timed
    /// out, releasing every chunk lock it held — or, when nobody is
    /// stale, promotes the longest-waiting queued contributor into
    /// the current public round, handing it one task per chunk, when
    /// the active capacity allows. Repeated ticks stabilize the
    /// queue.
    #[verifier::rlimit(100)]
    #[verifier::spinoff_prover]
    pub fn update(&mut self, now: u64) -> (r: Result<(), CoordinatorError>)
        requires
            old(self).wf(),
        ensures
            final(self).wf(),
            r == Ok::<(), CoordinatorError>(()),
            final(self).environment == old(self).environment,
            final(self).pending_verifications == old(self).pending_verifications,
            final(self).storage.durable@ == old(self).storage.durable@,
            final(self).store().blobs == old(self).store().blobs,
            final(self).store().signatures == old(self).store().signatures,
            final(self).store().round_files == old(self).store().round_files,
            final(self).store().round_height == old(self).store().round_height,
            ({
                let q = old(self).queue@;
                let s = old(self).store();
                let timeout = old(self).environment.heartbeat_timeout;
                if exists|i: int| 0 <= i < q.entries.len() && stale(#[trigger] q.entries[i], now, timeout) {
                    exists|i: int|
                        {
                            &&& 0 <= i < q.entries.len()
                            &&& stale(#[trigger] q.entries[i], now, timeout)
                            &&& forall|j: int| 0 <= j < i ==> !stale(#[trigger] q.entries[j], now, timeout)
                            &&& final(self).queue@ == (ParticipantQueueV {
                                entries: q.entries.update(i, evicted_form(q.entries[i], now)),
                                ..q
                            })
                            &&& final(self).store().rounds == (
                            match spec_current_round(s) {
                                Ok(round) => s.rounds.insert(
                                    spec_height(s),
                                    spec_release_locks(round, q.entries[i].participant),
                                ),
                                Err(_) => s.rounds,
                            })
                        }
                } else {
                    match spec_current_round(s) {
                        Ok(round) => if spec_height(s) >= 1
                            && ParticipantQueueV::count_status(q.entries, QueueStatus::Active)
                            < old(self).environment.active_capacity && (exists|i: int|
                            0 <= i < q.entries.len() && (#[trigger] q.entries[i]).status
                                == QueueStatus::Queued) {
                            exists|i: int|
                                {
                                    &&& 0 <= i < q.entries.len()
                                    &&& (#[trigger] q.entries[i]).status == QueueStatus::Queued
                                    &&& forall|j: int|
                                        0 <= j < q.entries.len() && (
                                        #[trigger] q.entries[j]).status == QueueStatus::Queued
                                            ==> q.entries[i].position <= q.entries[j].position
                                    &&& final(self).queue@ == (ParticipantQueueV {
                                        entries: q.entries.update(
                                            i,
                                            QueueEntryV {
                                                status: QueueStatus::Active,
                                                pending_tasks: spec_dispatch_tasks(round),
                                                ..q.entries[i]
                                            },
                                        ),
                                        ..q
                                    })
                                    &&& final(self).store().rounds == s.rounds.insert(
                                        spec_height(s),
                                        RoundV {
                                            contributors: if round.authorized_contributor(
                                                q.entries[i].participant,
                                            ) {
                                                round.contributors
                                            } else {
                                                round.contributors.push(q.entries[i].participant)
                                            },
                                            ..round
                                        },
                                    )
                                }
                        } else {
                            final(self).queue@ == q && final(self).store().rounds == s.rounds
                        },
                        Err(_) => final(self).queue@ == q && final(self).store().rounds
                            == s.rounds,
                    }
                }
            }),
    {
        let timeout = self.environment.heartbeat_timeout;
        match self.queue.find_stale_active(now, timeout) {
            Some(i) => {
                let evicted = self.queue.evict_at(i, now);
                match self.current_round_height() {
                    Ok(h) => {
                        match self.get_round(h) {
                            Ok(mut round) => {
                                if round.get_height() == h {
                                    round.release_locks_of(&evicted);
                                    proof {
                                        assert(round@.chunks =~= spec_release_locks(
                                            old(self).store().rounds[h],
                                            evicted@,
                                        ).chunks);
                                    }
                                    self.storage.pending.insert_round(h, round);
                                }
                            },
                            Err(_) => {},
                        }
                    },
                    Err(_) => {},
                }
                Ok(())
            },
            None => {
                let h = match self.current_round_height() {
                    Ok(h) => h,
                    Err(_) => {
                        return Ok(());
                    },
                };
                if h == 0 {
                    return Ok(());
                }
                let mut round = match self.get_round(h) {
                    Ok(round) => round,
                    Err(_) => {
                        return Ok(());
                    },
                };
                if round.get_height() != h {
                    return Ok(());
                }
                let active = self.queue.count_with_status(QueueStatus::Active);
                if active >= self.environment.active_capacity {
                    return Ok(());
                }
                match self.queue.find_next_queued() {
                    Some(i) => {
                        let n = round.chunks.len();
                        let mut tasks: Vec<Task> = Vec::new();
                        let mut c: usize = 0;
                        while c < n
                            invariant
                                0 <= c <= n,
                                n == round.chunks.len(),
                                tasks.len() == c,
                                round@.wf(),
                                forall|j: int|
                                    0 <= j < c ==> #[trigger] tasks.deep_view()[j] == (Task {
                                        chunk_id: j as u64,
                                        contribution_id: round@.chunks[
                                            j
                                        ].contributions.len() as u64,
                                    }),
                            decreases n - c,
                        {
                            let ghost pre = tasks.deep_view();
                            let id = round.chunks[c].contributions.len() as u64;
                            tasks.push(Task::new(c as u64, id));
                            proof {
                                assert(tasks.deep_view() =~= pre.push(
                                    tasks[c as int].deep_view(),
                                ));
                                assert(round.chunks[c as int]@ == round@.chunks[c as int]);
                            }
                            c = c + 1;
                        }
                        proof {
                            assert(tasks.deep_view() =~= spec_dispatch_tasks(round@));
                        }
                        let promoted = self.queue.promote_at(i, tasks);
                        if !round.is_authorized_contributor(&promoted) {
                            proof {
                                assert(old(self).queue@.entries[i as int].participant.is_contributor());
                            }
                            round.contributors.push(promoted);
                            proof {
                                assert(round@.contributors =~= old(self).store().rounds[
                                    h
                                ].contributors.push(old(self).queue@.entries[i as int].participant));
                                assert(round@.wf()) by {
                                    let oldr = old(self).store().rounds[h];
                                    assert(old(self).store().rounds.dom().contains(h));
                                    assert(oldr.wf());
                                    assert(round@.chunks == oldr.chunks);
                                    assert(round@.verifiers == oldr.verifiers);
                                    assert(round@.chunk_verifiers == oldr.chunk_verifiers);
                                    assert forall|j: int|
                                        0 <= j < round@.contributors.len() implies (
                                    #[trigger] round@.contributors[j]).is_contributor() by {
                                        if j < oldr.contributors.len() {
                                            assert(round@.contributors[j]
                                                == oldr.contributors[j]);
                                        } else {
                                            assert(round@.contributors[j] == old(
                                                self,
                                            ).queue@.entries[i as int].participant);
                                        }
                                    }
                                }
                            }
                        }
                        let ghost rv = round@;
                        self.storage.pending.insert_round(h, round);
                        proof {
                            let num_i = old(self).environment.number_of_chunks as int;
                            assert forall|hh: u64|
                                #[trigger] self.store().rounds.dom().contains(
                                    hh,
                                ) implies self.store().rounds[hh].height == hh
                                && self.store().rounds[hh].wf() && self.store().rounds[hh].chunks.len()
                                == num_i by {
                                if hh != h {
                                    assert(old(self).store().rounds.dom().contains(hh));
                                } else {
                                    assert(self.store().rounds[hh] == rv);
                                }
                            }
                        }
                        Ok(())
                    },
                    None => Ok(()),
                }
            },
        }
    }
}

/// What the dispatcher's `try_lock` decides: the head pending task of
/// an active contributor names the chunk to lock; on success the
/// contributor is handed the locators of its challenge, of the slot
/// its contribution must be uploaded to, and of the accompanying
/// file signature.
pub open spec fn spec_dispatch_try_lock(
    q: ParticipantQueueV,
    s: StoreStateV,
    p: ParticipantV,
) -> Result<(StoreStateV, u64, LockedLocators), CoordinatorError> {
    if !q.contains(p) {
        Err(CoordinatorError::ParticipantMissing)
    } else {
        let i = choose|i: int|
            0 <= i < q.entries.len() && (#[trigger] q.entries[i]).participant == p;
        let e = q.entries[i];
        if e.status != QueueStatus::Active {
            Err(CoordinatorError::ParticipantNotActive)
        } else if e.pending_tasks.len() == 0 {
            Err(CoordinatorError::ParticipantNoPendingTasks)
        } else {
            let t = e.pending_tasks[0];
            if t.contribution_id == 0 {
                Err(CoordinatorError::ContributionIdIsNonzero)
            } else {
                match spec_current_round_height(s) {
                    Err(err) => Err(err),
                    Ok(h) => match spec_coordinator_try_lock(s, t.chunk_id, p) {
                        Err(err) => Err(err),
                        Ok(sv) => Ok(
                            (
                                sv,
                                t.chunk_id,
                                LockedLocators {
                                    current_contribution: verified_locator(
                                        h,
                                        t.chunk_id,
                                        (t.contribution_id - 1) as u64,
                                    ),
                                    next_contribution: plain_locator(
                                        h,
                                        t.chunk_id,
                                        t.contribution_id,
                                    ),
                                    next_contribution_signature: ContributionSignatureLocator {
                                        round_height: h,
                                        chunk_id: t.chunk_id,
                                        contribution_id: t.contribution_id,
                                        is_verified: false,
                                    },
                                },
                            ),
                        ),
                    },
                }
            }
        }
    }
}

/// The prechecks of the dispatcher's `try_contribute`: an active
/// contributor commits its uploaded contribution to a chunk whose
/// lock it holds, under the exact pending contribution id, with the
/// artifact already in the store and the matching task still pending.
/// Answers the current height and the contribution id.
pub open spec fn spec_try_contribute_precheck(
    q: ParticipantQueueV,
    s: StoreStateV,
    p: ParticipantV,
    chunk_id: u64,
) -> Result<(u64, int), CoordinatorError> {
    if !q.contains(p) {
        Err(CoordinatorError::ParticipantMissing)
    } else {
        let i = choose|i: int|
            0 <= i < q.entries.len() && (#[trigger] q.entries[i]).participant == p;
        let e = q.entries[i];
        if e.status != QueueStatus::Active {
            Err(CoordinatorError::ParticipantNotActive)
        } else {
            match spec_current_round(s) {
                Err(err) => Err(err),
                Ok(round) => if !round.authorized_contributor(p) {
                    Err(CoordinatorError::UnauthorizedChunkContributor)
                } else if spec_height(s) == 0 {
                    Err(CoordinatorError::RoundHeightIsZero)
                } else if chunk_id >= round.chunks.len() {
                    Err(CoordinatorError::ChunkMissing)
                } else {
                    let chunk = round.chunks[chunk_id as int];
                    if !chunk.locked_by(p) {
                        Err(CoordinatorError::ChunkNotLockedOrByWrongParticipant)
                    } else if chunk.pending_verification() {
                        Err(CoordinatorError::ChunkMissingVerification)
                    } else {
                        match chunk.spec_next_contribution_id(round.contributors.len() as int) {
                            Err(err) => Err(err),
                            Ok(next) => if !s.blobs.dom().contains(
                                plain_locator(spec_height(s), chunk_id, next as u64),
                            ) {
                                Err(CoordinatorError::ContributionLocatorMissing)
                            } else if !e.pending_tasks.contains(
                                Task { chunk_id, contribution_id: next as u64 },
                            ) {
                                Err(CoordinatorError::ParticipantNoPendingTasks)
                            } else {
                                Ok((spec_height(s), next))
                            },
                        }
                    }
                },
            }
        }
    }
}

impl Coordinator {
    /// Reserves the next chunk for an active contributor, as
    /// [`spec_dispatch_try_lock`] decides: the head pending task
    /// names the chunk, the lock is acquired through the round, and
    /// the contributor receives its locked locators.
    pub fn try_lock(&mut self, participant: &Participant) -> (r: Result<
        (u64, LockedLocators),
        CoordinatorError,
    >)
        requires
            old(self).wf(),
        ensures
            final(self).wf(),
            final(self).environment == old(self).environment,
            final(self).queue == old(self).queue,
            final(self).pending_verifications == old(self).pending_verifications,
            final(self).storage.durable@ == old(self).storage.durable@,
            match spec_dispatch_try_lock(old(self).queue@, old(self).store(), participant@) {
                Ok((sv, chunk_id, locators)) => r == Ok::<
                    (u64, LockedLocators),
                    CoordinatorError,
                >((chunk_id, locators)) && final(self).store() == sv,
                Err(e) => r == Err::<(u64, LockedLocators), CoordinatorError>(e)
                    && final(self).store() == old(self).store(),
            },
    {
        let task: Task;
        match self.queue.current_participant_info(participant) {
            Some(entry) => {
                proof {
                    let j = choose|j: int|
                        0 <= j < self.queue@.entries.len() && (
                        #[trigger] self.queue@.entries[j]).participant == participant@;
                    assert(self.queue@.entries.contains(entry@));
                    let k = choose|k: int|
                        0 <= k < self.queue@.entries.len() && self.queue@.entries[k] == entry@;
                    assert(self.queue@.entries[j] == self.queue@.entries[k]);
                }
                if !(entry.status == QueueStatus::Active) {
                    return Err(CoordinatorError::ParticipantNotActive);
                }
                if entry.pending_tasks.len() == 0 {
                    return Err(CoordinatorError::ParticipantNoPendingTasks);
                }
                task = entry.pending_tasks[0];
            },
            None => {
                return Err(CoordinatorError::ParticipantMissing);
            },
        }
        if task.contribution_id == 0 {
            return Err(CoordinatorError::ContributionIdIsNonzero);
        }
        let round_height = match self.current_round_height() {
            Ok(h) => h,
            Err(e) => {
                return Err(e);
            },
        };
        match self.try_lock_chunk(task.chunk_id, participant.clone()) {
            Ok(()) => {},
            Err(e) => {
                return Err(e);
            },
        }
        let locators = LockedLocators {
            current_contribution: ContributionLocator::new(
                round_height,
                task.chunk_id,
                task.contribution_id - 1,
                true,
            ),
            next_contribution: ContributionLocator::new(
                round_height,
                task.chunk_id,
                task.contribution_id,
                false,
            ),
            next_contribution_signature: ContributionSignatureLocator::new(
                round_height,
                task.chunk_id,
                task.contribution_id,
                false,
            ),
        };
        Ok((task.chunk_id, locators))
    }

    /// Commits an uploaded contribution to the chunk its contributor
    /// holds locked, as [`spec_try_contribute_precheck`] decides:
    /// the contribution is recorded in the round under the pending
    /// id, the lock is released, the matching task is retired — a
    /// contributor with nothing further pending is finished — and a
    /// verification task for the coordinator verifier is enqueued.
    ///
    /// On success, returns the locator the contribution was recorded
    /// under.
    pub fn try_contribute(&mut self, participant: &Participant, chunk_id: u64) -> (r: Result<
        ContributionLocator,
        CoordinatorError,
    >)
        requires
            old(self).wf(),
        ensures
            final(self).wf(),
            final(self).environment == old(self).environment,
            final(self).storage.durable@ == old(self).storage.durable@,
            match spec_try_contribute_precheck(
                old(self).queue@,
                old(self).store(),
                participant@,
                chunk_id,
            ) {
                Err(e) => {
                    &&& r == Err::<ContributionLocator, CoordinatorError>(e)
                    &&& final(self).store() == old(self).store()
                    &&& final(self).queue@ == old(self).queue@
                    &&& final(self).pending_verifications == old(self).pending_verifications
                },
                Ok((h, next)) => {
                    let s = old(self).store();
                    let round = s.rounds[h];
                    let locator = plain_locator(h, chunk_id, next as u64);
                    let task = Task { chunk_id, contribution_id: next as u64 };
                    &&& r == Ok::<ContributionLocator, CoordinatorError>(locator)
                    &&& final(self).store().rounds == s.rounds.insert(
                        h,
                        round.spec_add_contribution(
                            chunk_id,
                            next as u64,
                            participant@,
                            locator,
                        )->Ok_0,
                    )
                    &&& final(self).store().blobs == s.blobs
                    &&& final(self).store().signatures == s.signatures
                    &&& final(self).store().round_files == s.round_files
                    &&& final(self).store().round_height == s.round_height
                    &&& final(self).pending_verifications@ == old(
                        self,
                    ).pending_verifications@.push(task)
                    &&& exists|i: int, t: int|
                        {
                            &&& 0 <= i < old(self).queue@.entries.len()
                            &&& (#[trigger] old(self).queue@.entries[i]).participant
                                == participant@
                            &&& 0 <= t < old(self).queue@.entries[i].pending_tasks.len()
                            &&& #[trigger] old(self).queue@.entries[i].pending_tasks[t] == task
                            &&& final(self).queue@ == (ParticipantQueueV {
                                entries: old(self).queue@.entries.update(
                                    i,
                                    QueueEntryV {
                                        status: if old(
                                            self,
                                        ).queue@.entries[i].pending_tasks.len() == 1 {
                                            QueueStatus::Finished
                                        } else {
                                            old(self).queue@.entries[i].status
                                        },
                                        pending_tasks: old(
                                            self,
                                        ).queue@.entries[i].pending_tasks.remove(t),
                                        completed_tasks: old(
                                            self,
                                        ).queue@.entries[i].completed_tasks.push(task),
                                        ..old(self).queue@.entries[i]
                                    },
                                ),
                                ..old(self).queue@
                            })
                        }
                },
            },
    {
        match self.queue.current_participant_info(participant) {
            Some(entry) => {
                proof {
                    let j = choose|j: int|
                        0 <= j < self.queue@.entries.len() && (
                        #[trigger] self.queue@.entries[j]).participant == participant@;
                    assert(self.queue@.entries.contains(entry@));
                    let k = choose|k: int|
                        0 <= k < self.queue@.entries.len() && self.queue@.entries[k] == entry@;
                    assert(self.queue@.entries[j] == self.queue@.entries[k]);
                }
                if !(entry.status == QueueStatus::Active) {
                    return Err(CoordinatorError::ParticipantNotActive);
                }
            },
            None => {
                return Err(CoordinatorError::ParticipantMissing);
            },
        }
        let mut round = match self.current_round() {
            Ok(round) => round,
            Err(e) => {
                return Err(e);
            },
        };
        if !round.is_authorized_contributor(participant) {
            return Err(CoordinatorError::UnauthorizedChunkContributor);
        }
        let round_height = match self.current_round_height() {
            Ok(h) => h,
            Err(_) => {
                return unreached();
            },
        };
        if round_height == 0 {
            return Err(CoordinatorError::RoundHeightIsZero);
        }
        let next_contribution_id: u64;
        match round.get_chunk(chunk_id) {
            Ok(chunk) => {
                if !chunk.is_locked_by(participant) {
                    return Err(CoordinatorError::ChunkNotLockedOrByWrongParticipant);
                }
                if chunk.pending_verification() {
                    return Err(CoordinatorError::ChunkMissingVerification);
                }
                match chunk.next_contribution_id(round.num_contributors()) {
                    Ok(id) => {
                        next_contribution_id = id;
                    },
                    Err(e) => {
                        return Err(e);
                    },
                }
            },
            Err(e) => {
                return Err(e);
            },
        }
        if !self.contribution_locator_exists(round_height, chunk_id, next_contribution_id, false) {
            return Err(CoordinatorError::ContributionLocatorMissing);
        }
        let task = Task::new(chunk_id, next_contribution_id);
        match self.queue.complete_task(participant, task) {
            Ok(()) => {},
            Err(e) => {
                return Err(e);
            },
        }
        let locator = ContributionLocator::new(round_height, chunk_id, next_contribution_id, false);
        match round.add_contribution(chunk_id, next_contribution_id, participant.clone(), locator) {
            Ok(()) => {},
            Err(_) => {
                return unreached();
            },
        }
        self.storage.pending.insert_round(round_height, round);
        self.pending_verifications.push(task);
        proof {
            let num_i = old(self).environment.number_of_chunks as int;
            assert forall|hh: u64|
                #[trigger] self.store().rounds.dom().contains(hh) implies self.store().rounds[
                hh
            ].height == hh && self.store().rounds[hh].wf() && self.store().rounds[hh].chunks.len()
                == num_i by {
                if hh != round_height {
                    assert(old(self).store().rounds.dom().contains(hh));
                }
            }
        }
        Ok(locator)
    }
}

/// Removing a task that occurs first at the given index removes
/// exactly that element.
pub proof fn lemma_remove_first_at(s: Seq<Task>, t: Task, i: int)
    requires
        0 <= i < s.len(),
        s[i] == t,
        forall|j: int| 0 <= j < i ==> s[j] != t,
    ensures
        spec_remove_first(s, t) == s.remove(i),
    decreases i,
{
    if i == 0 {
        assert(s.drop_first() =~= s.remove(0));
    } else {
        lemma_remove_first_at(s.drop_first(), t, i - 1);
        assert(s.drop_first()[i - 1] == s[i]);
        assert forall|j: int| 0 <= j < i - 1 implies s.drop_first()[j] != t by {
            assert(s.drop_first()[j] == s[j + 1]);
        }
        assert(spec_remove_first(s, t) == seq![s[0]] + s.drop_first().remove(i - 1));
        assert(seq![s[0]] + s.drop_first().remove(i - 1) =~= s.remove(i));
    }
}

/// Removing a task that does not occur changes nothing.
pub proof fn lemma_remove_first_absent(s: Seq<Task>, t: Task)
    requires
        forall|j: int| 0 <= j < s.len() ==> s[j] != t,
    ensures
        spec_remove_first(s, t) == s,
    decreases s.len(),
{
    if s.len() > 0 {
        assert forall|j: int| 0 <= j < s.drop_first().len() implies s.drop_first()[j] != t by {
            assert(s.drop_first()[j] == s[j + 1]);
        }
        lemma_remove_first_absent(s.drop_first(), t);
        assert(seq![s[0]] + s.drop_first() =~= s);
    }
}

/// The initial contribution artifact of every chunk exists for every
/// height up to the current one: what the initialization of round
/// zero establishes and every transition preserves.
pub proof fn lemma_initial_locators_exist(c: Coordinator, h: u64, chunk_id: u64)
    requires
        c.wf(),
        c.store().round_height is Some,
        h <= spec_height(c.store()),
        chunk_id < c.environment.number_of_chunks,
    ensures
        c.store().blobs.dom().contains(plain_locator(h, chunk_id, 0)),
{
}

/// Every stored round sits under its own height as the storage key,
/// and holds exactly one chunk per configured chunk of the ceremony.
pub proof fn lemma_round_shape(c: Coordinator, h: u64)
    requires
        c.wf(),
        c.store().rounds.dom().contains(h),
    ensures
        c.store().rounds[h].height == h,
        c.store().rounds[h].chunks.len() == c.environment.number_of_chunks,
        c.store().rounds[h].wf(),
{
}

} // verus!
