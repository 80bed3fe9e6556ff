//! The transport-level contract between a contributor client and the
//! coordinator: the request bodies of the endpoints and, for each
//! endpoint, the computation it performs against the coordinator.
//! Listening, framing and locking around the coordinator belong to
//! the server binary, which hands these functions plain values.

use vstd::prelude::*;

use crate::adapters::content_hash_of;
use crate::coordinator::{
    plain_locator, spec_current_round, spec_dispatch_tasks, spec_dispatch_try_lock, spec_height,
    spec_release_locks, spec_try_contribute_precheck, Coordinator,
};
use crate::errors::CoordinatorError;
use crate::locator::{ContributionLocator, ContributionSignatureLocator, LockedLocators, Task};
use crate::participant::Participant;
use crate::queue::{evicted_form, stale, ParticipantQueueV, QueueEntryV, QueueStatus};
use crate::signature::ContributionFileSignature;
use crate::storage::StoreStateV;

verus! {

/// How often, in seconds, a client polls its status and sends its
/// heartbeat.
pub const UPDATE_TIME: u64 = 15;

/// Server errors carried back to the client, wrapping the
/// coordinator's own error kinds.
#[derive(Debug)]
pub enum ResponseError {
    CoordinatorError(CoordinatorError),
    ShutdownError(String),
    UnknownContributor(String),
    UnknownTask(Task),
    VerificationError(String),
}

/// Request to download a chunk.
#[derive(Debug)]
pub struct GetChunkRequest {
    pub pubkey: String,
    pub locked_locators: LockedLocators,
}

impl GetChunkRequest {
    /// Pairs the requesting public key with its locked locators.
    pub fn new(pubkey: String, locked_locators: LockedLocators) -> (r: GetChunkRequest)
        ensures
            r.pubkey@ == pubkey@,
            r.locked_locators == locked_locators,
    {
        GetChunkRequest { pubkey, locked_locators }
    }
}

/// Contribution of a chunk: the commit request a contributor sends
/// once its upload is complete.
#[derive(Debug)]
pub struct ContributeChunkRequest {
    pub pubkey: String,
    pub chunk_id: u64,
}

impl ContributeChunkRequest {
    /// Pairs the contributing public key with the chunk it commits.
    pub fn new(pubkey: String, chunk_id: u64) -> (r: ContributeChunkRequest)
        ensures
            r.pubkey@ == pubkey@,
            r.chunk_id == chunk_id,
    {
        ContributeChunkRequest { pubkey, chunk_id }
    }
}

/// Request to upload a chunk contribution: the artifact bytes, where
/// they belong, and the accompanying file signature.
#[derive(Debug)]
pub struct PostChunkRequest {
    pub contribution_locator: ContributionLocator,
    pub contribution: Vec<u8>,
    pub contribution_file_signature_locator: ContributionSignatureLocator,
    pub contribution_file_signature: ContributionFileSignature,
}

impl PostChunkRequest {
    /// Assembles an upload request from its parts.
    pub fn new(
        contribution_locator: ContributionLocator,
        contribution: Vec<u8>,
        contribution_file_signature_locator: ContributionSignatureLocator,
        contribution_file_signature: ContributionFileSignature,
    ) -> (r: PostChunkRequest)
        ensures
            r.contribution_locator == contribution_locator,
            r.contribution@ == contribution@,
            r.contribution_file_signature_locator == contribution_file_signature_locator,
            r.contribution_file_signature@ == contribution_file_signature@,
    {
        PostChunkRequest {
            contribution_locator,
            contribution,
            contribution_file_signature_locator,
            contribution_file_signature,
        }
    }
}

/// Add the incoming contributor to the queue of contributors, with
/// up to ten seats per IP.
pub fn join_queue(
    coordinator: &mut Coordinator,
    contributor_pubkey: String,
    contributor_ip: String,
    now: u64,
) -> (r: Result<(), ResponseError>)
    requires
        old(coordinator).wf(),
    ensures
        final(coordinator).wf(),
        final(coordinator).storage == old(coordinator).storage,
        match old(coordinator).queue@.spec_add(
            crate::participant::ParticipantV::Contributor(contributor_pubkey@),
            contributor_ip@,
            10,
            now,
        ) {
            Ok(v) => r matches Ok(()) && final(coordinator).queue@ == v,
            Err(e) => r matches Err(re) && re matches ResponseError::CoordinatorError(ce) && ce
                == e && final(coordinator).queue@ == old(coordinator).queue@,
        },
{
    let contributor = Participant::new_contributor(contributor_pubkey.as_str());
    match coordinator.add_to_queue(contributor, contributor_ip, 10, now) {
        Ok(()) => Ok(()),
        Err(e) => Err(ResponseError::CoordinatorError(e)),
    }
}

/// Lock a chunk in the ceremony. This is the first call of a
/// contribution: once the chunk is locked, its challenge is ready to
/// be downloaded.
pub fn lock_chunk(coordinator: &mut Coordinator, contributor_pubkey: String) -> (r: Result<
    LockedLocators,
    ResponseError,
>)
    requires
        old(coordinator).wf(),
    ensures
        final(coordinator).wf(),
        final(coordinator).queue == old(coordinator).queue,
        final(coordinator).pending_verifications == old(coordinator).pending_verifications,
        match spec_dispatch_try_lock(
            old(coordinator).queue@,
            old(coordinator).store(),
            crate::participant::ParticipantV::Contributor(contributor_pubkey@),
        ) {
            Ok((sv, chunk_id, locators)) => r matches Ok(l) && l == locators
                && final(coordinator).store() == sv,
            Err(e) => r matches Err(re) && re matches ResponseError::CoordinatorError(ce) && ce
                == e && final(coordinator).store() == old(coordinator).store(),
        },
{
    let contributor = Participant::new_contributor(contributor_pubkey.as_str());
    match coordinator.try_lock(&contributor) {
        Ok((_, locked_locators)) => Ok(locked_locators),
        Err(e) => Err(ResponseError::CoordinatorError(e)),
    }
}

/// Download a chunk task: checks that the task named by the locked
/// locators is still pending for the contributor and hands it back.
pub fn get_chunk(
    coordinator: &Coordinator,
    contributor_pubkey: String,
    locked_locators: LockedLocators,
) -> (r: Result<Task, ResponseError>)
    requires
        coordinator.wf(),
    ensures
        ({
            let task = Task {
                chunk_id: locked_locators.next_contribution.chunk_id,
                contribution_id: locked_locators.next_contribution.contribution_id,
            };
            let p = crate::participant::ParticipantV::Contributor(contributor_pubkey@);
            match r {
                Ok(t) => t == task && coordinator.queue@.contains(p) && exists|i: int|
                    0 <= i < coordinator.queue@.entries.len() && (
                    #[trigger] coordinator.queue@.entries[i]).participant == p
                        && coordinator.queue@.entries[i].pending_tasks.contains(task),
                Err(re) => {
                    ||| (re matches ResponseError::UnknownContributor(k) && k@
                        == contributor_pubkey@ && !coordinator.queue@.contains(p))
                    ||| (re matches ResponseError::UnknownTask(t) && t == task
                        && coordinator.queue@.contains(p) && exists|i: int|
                        0 <= i < coordinator.queue@.entries.len() && (
                        #[trigger] coordinator.queue@.entries[i]).participant == p
                            && !coordinator.queue@.entries[i].pending_tasks.contains(task))
                },
            }
        }),
{
    let contributor = Participant::new_contributor(contributor_pubkey.as_str());
    let next = locked_locators.next_contribution();
    let task = Task::new(next.chunk_id(), next.contribution_id());
    match coordinator.current_participant_info(&contributor) {
        Some(info) => {
            let n = info.pending_tasks.len();
            let mut i: usize = 0;
            while i < n
                invariant
                    0 <= i <= n,
                    n == info.pending_tasks.len(),
                    coordinator.queue@.contains(
                        crate::participant::ParticipantV::Contributor(contributor_pubkey@),
                    ),
                    coordinator.queue@.entries.contains(info@),
                    info@.participant == crate::participant::ParticipantV::Contributor(
                        contributor_pubkey@,
                    ),
                    task == (Task {
                        chunk_id: locked_locators.next_contribution.chunk_id,
                        contribution_id: locked_locators.next_contribution.contribution_id,
                    }),
                    forall|j: int| 0 <= j < i ==> info.pending_tasks@[j] != task,
                decreases n - i,
            {
                if info.pending_tasks[i] == task {
                    proof {
                        assert(info@.pending_tasks[i as int] == task);
                        assert(info@.pending_tasks.contains(task));
                        let k = choose|k: int|
                            0 <= k < coordinator.queue@.entries.len()
                                && coordinator.queue@.entries[k] == info@;
                        assert((#[trigger] coordinator.queue@.entries[k]).participant
                            == info@.participant);
                        assert(coordinator.queue@.entries[k].pending_tasks.contains(task));
                    }
                    return Ok(task);
                }
                i = i + 1;
            }
            proof {
                assert(forall|j: int|
                    0 <= j < info@.pending_tasks.len() ==> info@.pending_tasks[j] != task);
                assert(!info@.pending_tasks.contains(task));
                let k = choose|k: int|
                    0 <= k < coordinator.queue@.entries.len() && coordinator.queue@.entries[k]
                        == info@;
                assert((#[trigger] coordinator.queue@.entries[k]).participant == info@.participant);
                assert(!coordinator.queue@.entries[k].pending_tasks.contains(task));
            }
            Err(ResponseError::UnknownTask(task))
        },
        None => Err(ResponseError::UnknownContributor(contributor_pubkey)),
    }
}

/// Download the challenge named by the locked locators: the verified
/// output of the previous contribution.
pub fn get_challenge(coordinator: &Coordinator, locked_locators: LockedLocators) -> (r: Result<
    Vec<u8>,
    ResponseError,
>)
    requires
        coordinator.wf(),
    ensures
        ({
            let l = locked_locators.current_contribution;
            match r {
                Ok(bytes) => coordinator.store().blobs.dom().contains(l) && bytes@
                    == coordinator.store().blobs[l],
                Err(re) => re matches ResponseError::CoordinatorError(ce) && ce
                    == CoordinatorError::ContributionLocatorMissing
                    && !coordinator.store().blobs.dom().contains(l),
            }
        }),
{
    let challenge_locator = locked_locators.current_contribution();
    match coordinator.get_challenge(
        challenge_locator.round_height(),
        challenge_locator.chunk_id(),
        challenge_locator.contribution_id(),
        challenge_locator.is_verified(),
    ) {
        Ok(bytes) => Ok(bytes),
        Err(e) => Err(ResponseError::CoordinatorError(e)),
    }
}

/// Upload a chunk contribution: writes the artifact bytes under the
/// given locator and the file signature beside them.
pub fn post_contribution_chunk(coordinator: &mut Coordinator, request: PostChunkRequest) -> (r:
    Result<(), ResponseError>)
    requires
        old(coordinator).wf(),
    ensures
        final(coordinator).wf(),
        final(coordinator).queue == old(coordinator).queue,
        final(coordinator).pending_verifications == old(coordinator).pending_verifications,
        ({
            let s = old(coordinator).store();
            let sig = request.contribution_file_signature@;
            let blob_locator = ContributionLocator {
                round_height: request.contribution_file_signature_locator.round_height,
                chunk_id: request.contribution_file_signature_locator.chunk_id,
                contribution_id: request.contribution_file_signature_locator.contribution_id,
                is_verified: request.contribution_file_signature_locator.is_verified,
            };
            let s1 = StoreStateV {
                blobs: s.blobs.insert(request.contribution_locator, request.contribution@),
                ..s
            };
            if request.contribution@.len() == 0 {
                // the artifact write fails: nothing is stored, the
                // signature in particular is not
                &&& r matches Err(re) && re matches ResponseError::CoordinatorError(ce) && ce
                    == CoordinatorError::ContributionFileSizeMismatch
                &&& final(coordinator).store() == s
            } else if !s1.blobs.dom().contains(blob_locator) {
                &&& r matches Err(re) && re matches ResponseError::CoordinatorError(ce) && ce
                    == CoordinatorError::ContributionLocatorMissing
                &&& final(coordinator).store() == s1
            } else if content_hash_of(s1.blobs[blob_locator]) != sig.state.response_hash {
                &&& r matches Err(re) && re matches ResponseError::CoordinatorError(ce) && ce
                    == CoordinatorError::ContributionHashMismatch
                &&& final(coordinator).store() == s1
            } else {
                &&& r matches Ok(())
                &&& final(coordinator).store() == (StoreStateV {
                    signatures: s1.signatures.insert(
                        request.contribution_file_signature_locator,
                        sig,
                    ),
                    ..s1
                })
            }
        }),
{
    let PostChunkRequest {
        contribution_locator,
        contribution,
        contribution_file_signature_locator,
        contribution_file_signature,
    } = request;
    match coordinator.write_contribution(contribution_locator, contribution) {
        Ok(()) => {},
        Err(e) => {
            return Err(ResponseError::CoordinatorError(e));
        },
    }
    match coordinator.write_contribution_file_signature(
        contribution_file_signature_locator,
        contribution_file_signature,
    ) {
        Ok(()) => Ok(()),
        Err(e) => Err(ResponseError::CoordinatorError(e)),
    }
}

/// Notify the coordinator of a finished and uploaded contribution.
/// This commits the contribution, unlocks the chunk and enqueues its
/// verification.
pub fn contribute_chunk(coordinator: &mut Coordinator, request: ContributeChunkRequest) -> (r:
    Result<ContributionLocator, ResponseError>)
    requires
        old(coordinator).wf(),
    ensures
        final(coordinator).wf(),
        ({
            let p = crate::participant::ParticipantV::Contributor(request.pubkey@);
            match spec_try_contribute_precheck(
                old(coordinator).queue@,
                old(coordinator).store(),
                p,
                request.chunk_id,
            ) {
                Ok((h, next)) => {
                    let s = old(coordinator).store();
                    let round = s.rounds[h];
                    let locator = plain_locator(h, request.chunk_id, next as u64);
                    let task = Task { chunk_id: request.chunk_id, contribution_id: next as u64 };
                    &&& r matches Ok(l) && l == locator
                    &&& final(coordinator).store().rounds == s.rounds.insert(
                        h,
                        round.spec_add_contribution(
                            request.chunk_id,
                            next as u64,
                            p,
                            locator,
                        )->Ok_0,
                    )
                    &&& final(coordinator).store().blobs == s.blobs
                    &&& final(coordinator).store().signatures == s.signatures
                    &&& final(coordinator).store().round_files == s.round_files
                    &&& final(coordinator).store().round_height == s.round_height
                    &&& final(coordinator).pending_verifications@ == old(
                        coordinator,
                    ).pending_verifications@.push(task)
                    &&& exists|i: int, t: int|
                        {
                            &&& 0 <= i < old(coordinator).queue@.entries.len()
                            &&& (#[trigger] old(coordinator).queue@.entries[i]).participant == p
                            &&& 0 <= t < old(coordinator).queue@.entries[i].pending_tasks.len()
                            &&& #[trigger] old(coordinator).queue@.entries[i].pending_tasks[t]
                                == task
                            &&& final(coordinator).queue@ == (ParticipantQueueV {
                                entries: old(coordinator).queue@.entries.update(
                                    i,
                                    QueueEntryV {
                                        status: if old(
                                            coordinator,
                                        ).queue@.entries[i].pending_tasks.len() == 1 {
                                            QueueStatus::Finished
                                        } else {
                                            old(coordinator).queue@.entries[i].status
                                        },
                                        pending_tasks: old(
                                            coordinator,
                                        ).queue@.entries[i].pending_tasks.remove(t),
                                        completed_tasks: old(
                                            coordinator,
                                        ).queue@.entries[i].completed_tasks.push(task),
                                        ..old(coordinator).queue@.entries[i]
                                    },
                                ),
                                ..old(coordinator).queue@
                            })
                        }
                },
                Err(e) => r matches Err(re) && re matches ResponseError::CoordinatorError(ce) && ce
                    == e && final(coordinator).store() == old(coordinator).store()
                    && final(coordinator).queue@ == old(coordinator).queue@
                    && final(coordinator).pending_verifications == old(
                    coordinator,
                ).pending_verifications,
            }
        }),
{
    let contributor = Participant::new_contributor(request.pubkey.as_str());
    match coordinator.try_contribute(&contributor, request.chunk_id) {
        Ok(locator) => Ok(locator),
        Err(e) => Err(ResponseError::CoordinatorError(e)),
    }
}

/// Update the coordinator state: one eviction or promotion tick of
/// the dispatcher.
#[verifier::rlimit(100)]
#[verifier::spinoff_prover]
pub fn update_coordinator(coordinator: &mut Coordinator, now: u64) -> (r: Result<
    (),
    ResponseError,
>)
    requires
        old(coordinator).wf(),
    ensures
        final(coordinator).wf(),
        r matches Ok(()),
        final(coordinator).pending_verifications == old(coordinator).pending_verifications,
        final(coordinator).storage.durable@ == old(coordinator).storage.durable@,
        final(coordinator).store().blobs == old(coordinator).store().blobs,
        final(coordinator).store().signatures == old(coordinator).store().signatures,
        final(coordinator).store().round_files == old(coordinator).store().round_files,
        final(coordinator).store().round_height == old(coordinator).store().round_height,
        ({
            let q = old(coordinator).queue@;
            let s = old(coordinator).store();
            let timeout = old(coordinator).environment.heartbeat_timeout;
            if exists|i: int| 0 <= i < q.entries.len() && stale(#[trigger] q.entries[i], now, timeout) {
                exists|i: int|
                    {
                        &&& 0 <= i < q.entries.len()
                        &&& stale(#[trigger] q.entries[i], now, timeout)
                        &&& forall|j: int| 0 <= j < i ==> !stale(#[trigger] q.entries[j], now, timeout)
                        &&& final(coordinator).queue@ == (ParticipantQueueV {
                            entries: q.entries.update(i, evicted_form(q.entries[i], now)),
                            ..q
                        })
                        &&& final(coordinator).store().rounds == (
                        match spec_current_round(s) {
                            Ok(round) => s.rounds.insert(
                                spec_height(s),
                                spec_release_locks(round, q.entries[i].participant),
                            ),
                            Err(_) => s.rounds,
                        })
                    }
            } else {
                match spec_current_round(s) {
                    Ok(round) => if spec_height(s) >= 1
                        && ParticipantQueueV::count_status(q.entries, QueueStatus::Active)
                        < old(coordinator).environment.active_capacity && (exists|i: int|
                        0 <= i < q.entries.len() && (#[trigger] q.entries[i]).status
                            == QueueStatus::Queued) {
                        exists|i: int|
                            {
                                &&& 0 <= i < q.entries.len()
                                &&& (#[trigger] q.entries[i]).status == QueueStatus::Queued
                                &&& forall|j: int|
                                    0 <= j < q.entries.len() && (
                                    #[trigger] q.entries[j]).status == QueueStatus::Queued
                                        ==> q.entries[i].position <= q.entries[j].position
                                &&& final(coordinator).queue@ == (ParticipantQueueV {
                                    entries: q.entries.update(
                                        i,
                                        QueueEntryV {
                                            status: QueueStatus::Active,
                                            pending_tasks: spec_dispatch_tasks(round),
                                            ..q.entries[i]
                                        },
                                    ),
                                    ..q
                                })
                                &&& final(coordinator).store().rounds == s.rounds.insert(
                                    spec_height(s),
                                    crate::round::RoundV {
                                        contributors: if round.authorized_contributor(
                                            q.entries[i].participant,
                                        ) {
                                            round.contributors
                                        } else {
                                            round.contributors.push(q.entries[i].participant)
                                        },
                                        ..round
                                    },
                                )
                            }
                    } else {
                        final(coordinator).queue@ == q && final(coordinator).store().rounds
                            == s.rounds
                    },
                    Err(_) => final(coordinator).queue@ == q && final(coordinator).store().rounds
                        == s.rounds,
                }
            }
        }),
{
    match coordinator.update(now) {
        Ok(()) => Ok(()),
        Err(e) => Err(ResponseError::CoordinatorError(e)),
    }
}

/// Lets the coordinator know that the contributor is still alive and
/// participating (or waiting to participate) in the ceremony.
pub fn heartbeat(coordinator: &mut Coordinator, contributor_pubkey: String, now: u64) -> (r:
    Result<(), ResponseError>)
    requires
        old(coordinator).wf(),
    ensures
        final(coordinator).wf(),
        final(coordinator).storage == old(coordinator).storage,
        final(coordinator).pending_verifications == old(coordinator).pending_verifications,
        ({
            let p = crate::participant::ParticipantV::Contributor(contributor_pubkey@);
            match r {
                Ok(()) => old(coordinator).queue@.contains(p) && exists|i: int|
                    {
                        &&& 0 <= i < old(coordinator).queue@.entries.len()
                        &&& (#[trigger] old(coordinator).queue@.entries[i]).participant == p
                        &&& final(coordinator).queue@ == (ParticipantQueueV {
                            entries: old(coordinator).queue@.entries.update(
                                i,
                                QueueEntryV {
                                    last_heartbeat: now,
                                    ..old(coordinator).queue@.entries[i]
                                },
                            ),
                            ..old(coordinator).queue@
                        })
                    },
                Err(re) => re matches ResponseError::CoordinatorError(ce) && ce
                    == CoordinatorError::ParticipantMissing && !old(coordinator).queue@.contains(p)
                    && final(coordinator).queue@ == old(coordinator).queue@,
            }
        }),
{
    let contributor = Participant::new_contributor(contributor_pubkey.as_str());
    match coordinator.heartbeat(&contributor, now) {
        Ok(()) => Ok(()),
        Err(e) => Err(ResponseError::CoordinatorError(e)),
    }
}

/// Get the pending tasks of a contributor.
pub fn get_tasks_left(coordinator: &Coordinator, contributor_pubkey: String) -> (r: Result<
    Vec<Task>,
    ResponseError,
>)
    ensures
        ({
            let p = crate::participant::ParticipantV::Contributor(contributor_pubkey@);
            match r {
                Ok(tasks) => coordinator.queue@.contains(p) && exists|i: int|
                    0 <= i < coordinator.queue@.entries.len() && (
                    #[trigger] coordinator.queue@.entries[i]).participant == p
                        && tasks.deep_view() == coordinator.queue@.entries[i].pending_tasks,
                Err(re) => re matches ResponseError::UnknownContributor(k) && k@
                    == contributor_pubkey@ && !coordinator.queue@.contains(p),
            }
        }),
{
    let contributor = Participant::new_contributor(contributor_pubkey.as_str());
    match coordinator.current_participant_info(&contributor) {
        Some(info) => {
            let tasks = info.pending_tasks.clone();
            proof {
                assert(tasks.deep_view() =~= info.pending_tasks.deep_view());
                assert(coordinator.queue@.entries.contains(info@));
                let k = choose|k: int|
                    0 <= k < coordinator.queue@.entries.len() && coordinator.queue@.entries[k]
                        == info@;
                assert(coordinator.queue@.entries[k].pending_tasks == tasks.deep_view());
            }
            Ok(tasks)
        },
        None => Err(ResponseError::UnknownContributor(contributor_pubkey)),
    }
}

} // verus!
