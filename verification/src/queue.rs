//! The contributor queue: admission with a per-IP cap, position
//! tracking, liveness via heartbeats, and the entry states a
//! contributor moves through — queued, active in the round, finished,
//! or banned.

use vstd::prelude::*;

use crate::errors::CoordinatorError;
use crate::locator::Task;
use crate::participant::{Participant, ParticipantV};

verus! {

/// Where a queue entry stands in its lifecycle.
#[derive(Clone, Copy, Debug, PartialEq, Eq, Structural)]
pub enum QueueStatus {
    Queued,
    Active,
    Finished,
    Banned,
}

/// What a polling contributor is told about its own standing.
#[derive(Clone, Copy, Debug, PartialEq, Eq, Structural)]
pub enum ContributorStatus {
    Queue(u64, u64),
    Round,
    Finished,
    Banned,
    Other,
}

/// The mathematical value of a [`QueueEntry`].
pub struct QueueEntryV {
    pub participant: ParticipantV,
    pub ip: Seq<char>,
    pub position: u64,
    pub joined_at: u64,
    pub last_heartbeat: u64,
    pub status: QueueStatus,
    pub evictions: u64,
    pub pending_tasks: Seq<Task>,
    pub completed_tasks: Seq<Task>,
}

/// One contributor known to the queue, with its admission position,
/// its liveness clock, and the tasks it was dispatched.
#[derive(Debug)]
pub struct QueueEntry {
    pub participant: Participant,
    pub ip: String,
    pub position: u64,
    pub joined_at: u64,
    pub last_heartbeat: u64,
    pub status: QueueStatus,
    pub evictions: u64,
    pub pending_tasks: Vec<Task>,
    pub completed_tasks: Vec<Task>,
}

impl View for QueueEntry {
    type V = QueueEntryV;

    open spec fn view(&self) -> QueueEntryV {
        QueueEntryV {
            participant: self.participant@,
            ip: self.ip@,
            position: self.position,
            joined_at: self.joined_at,
            last_heartbeat: self.last_heartbeat,
            status: self.status,
            evictions: self.evictions,
            pending_tasks: self.pending_tasks.deep_view(),
            completed_tasks: self.completed_tasks.deep_view(),
        }
    }
}

impl DeepView for QueueEntry {
    type V = QueueEntryV;

    open spec fn deep_view(&self) -> QueueEntryV {
        self.view()
    }
}

/// The mathematical value of a [`ParticipantQueue`].
pub struct ParticipantQueueV {
    pub entries: Seq<QueueEntryV>,
    pub next_position: u64,
}

impl ParticipantQueueV {
    /// Well-formedness: one entry per participant, every entry a
    /// contributor, every assigned position below the next one.
    pub open spec fn wf(self) -> bool {
        &&& forall|i: int, j: int|
            0 <= i < j < self.entries.len() ==> (#[trigger] self.entries[i]).participant != (
            #[trigger] self.entries[j]).participant
        &&& forall|i: int|
            0 <= i < self.entries.len() ==> (
            #[trigger] self.entries[i]).participant.is_contributor()
        &&& forall|i: int|
            0 <= i < self.entries.len() ==> (#[trigger] self.entries[i]).position
                < self.next_position
    }

    /// True when the participant has an entry in the queue.
    pub open spec fn contains(self, p: ParticipantV) -> bool {
        exists|i: int|
            0 <= i < self.entries.len() && (#[trigger] self.entries[i]).participant == p
    }

    /// The number of entries from the given IP that still hold a seat:
    /// the queued and the active ones, counted over a prefix.
    pub open spec fn ip_seats(entries: Seq<QueueEntryV>, ip: Seq<char>) -> int
        decreases entries.len(),
    {
        if entries.len() == 0 {
            0
        } else {
            Self::ip_seats(entries.drop_last(), ip) + (
            if entries.last().ip == ip && (entries.last().status == QueueStatus::Queued
                || entries.last().status == QueueStatus::Active) {
                1int
            } else {
                0int
            })
        }
    }

    /// The number of queued entries with a position below the given
    /// one, counted over a prefix: the queue rank of that position.
    pub open spec fn queued_before(entries: Seq<QueueEntryV>, position: u64) -> int
        decreases entries.len(),
    {
        if entries.len() == 0 {
            0
        } else {
            Self::queued_before(entries.drop_last(), position) + (
            if entries.last().status == QueueStatus::Queued && entries.last().position < position {
                1int
            } else {
                0int
            })
        }
    }

    /// The number of entries with the given status, counted over a
    /// prefix.
    pub open spec fn count_status(entries: Seq<QueueEntryV>, status: QueueStatus) -> int
        decreases entries.len(),
    {
        if entries.len() == 0 {
            0
        } else {
            Self::count_status(entries.drop_last(), status) + (
            if entries.last().status == status {
                1int
            } else {
                0int
            })
        }
    }

    /// What `add_to_queue` decides: admission of a contributor from an
    /// IP under a per-IP seat capacity. A duplicate is rejected and
    /// the queue is left exactly as it was; an admitted contributor is
    /// appended under the next position, with its liveness clock
    /// started at `now`.
    pub open spec fn spec_add(self, p: ParticipantV, ip: Seq<char>, capacity: u64, now: u64) -> Result<
        ParticipantQueueV,
        CoordinatorError,
    > {
        if !p.is_contributor() {
            Err(CoordinatorError::ExpectedContributor)
        } else if self.contains(p) {
            Err(CoordinatorError::ParticipantAlreadyAdded)
        } else if Self::ip_seats(self.entries, ip) >= capacity {
            Err(CoordinatorError::ParticipantIpCapacityReached)
        } else if self.next_position == u64::MAX {
            Err(CoordinatorError::StorageFailed)
        } else {
            Ok(
                ParticipantQueueV {
                    entries: self.entries.push(
                        QueueEntryV {
                            participant: p,
                            ip,
                            position: self.next_position,
                            joined_at: now,
                            last_heartbeat: now,
                            status: QueueStatus::Queued,
                            evictions: 0,
                            pending_tasks: Seq::empty(),
                            completed_tasks: Seq::empty(),
                        },
                    ),
                    next_position: (self.next_position + 1) as u64,
                },
            )
        }
    }

    /// What `contributor_queue_status` answers: the entry's own
    /// standing, and for a queued contributor its rank among the
    /// queued and the number of queued contributors in all.
    pub open spec fn spec_status(self, p: ParticipantV) -> ContributorStatus {
        if !self.contains(p) {
            ContributorStatus::Other
        } else {
            let i = choose|i: int|
                0 <= i < self.entries.len() && (#[trigger] self.entries[i]).participant == p;
            match self.entries[i].status {
                QueueStatus::Queued => ContributorStatus::Queue(
                    Self::queued_before(self.entries, self.entries[i].position) as u64,
                    Self::count_status(self.entries, QueueStatus::Queued) as u64,
                ),
                QueueStatus::Active => ContributorStatus::Round,
                QueueStatus::Finished => ContributorStatus::Finished,
                QueueStatus::Banned => ContributorStatus::Banned,
            }
        }
    }
}

/// True when an active entry has gone silent for longer than the
/// heartbeat timeout and must be evicted.
pub open spec fn stale(e: QueueEntryV, now: u64, timeout: u64) -> bool {
    &&& e.status == QueueStatus::Active
    &&& (now as int) > e.last_heartbeat + timeout
}

/// An entry after eviction: dropped back into the queue — or banned,
/// when it has been evicted before — with its pending tasks discarded
/// and its liveness clock reset.
pub open spec fn evicted_form(e: QueueEntryV, now: u64) -> QueueEntryV {
    QueueEntryV {
        status: if e.evictions >= 1 {
            QueueStatus::Banned
        } else {
            QueueStatus::Queued
        },
        evictions: if e.evictions == u64::MAX {
            e.evictions
        } else {
            (e.evictions + 1) as u64
        },
        last_heartbeat: now,
        pending_tasks: Seq::empty(),
        ..e
    }
}

/// An entry after an outright ban, as follows a failed verification:
/// its pending tasks are discarded and it takes no further part.
pub open spec fn banned_form(e: QueueEntryV) -> QueueEntryV {
    QueueEntryV { status: QueueStatus::Banned, pending_tasks: Seq::empty(), ..e }
}

/// The queue after banning a participant: the entry of that
/// participant, if any, takes its banned form; every other entry is
/// untouched.
pub open spec fn spec_ban(q: ParticipantQueueV, p: ParticipantV) -> ParticipantQueueV {
    ParticipantQueueV {
        entries: Seq::new(
            q.entries.len(),
            |i: int|
                if q.entries[i].participant == p {
                    banned_form(q.entries[i])
                } else {
                    q.entries[i]
                },
        ),
        ..q
    }
}

/// The queue of contributors known to the coordinator.
#[derive(Debug)]
pub struct ParticipantQueue {
    pub entries: Vec<QueueEntry>,
    pub next_position: u64,
}

impl View for ParticipantQueue {
    type V = ParticipantQueueV;

    open spec fn view(&self) -> ParticipantQueueV {
        ParticipantQueueV { entries: self.entries.deep_view(), next_position: self.next_position }
    }
}

impl ParticipantQueue {
    /// An empty queue, assigning positions from zero.
    pub fn new() -> (r: ParticipantQueue)
        ensures
            r@.wf(),
            r@.entries.len() == 0,
            r@.next_position == 0,
    {
        let r = ParticipantQueue { entries: Vec::new(), next_position: 0 };
        proof {
            assert(r@.entries =~= Seq::<QueueEntryV>::empty());
        }
        r
    }

    /// The index of the entry of the given participant, if any.
    fn find(&self, participant: &Participant) -> (r: Option<usize>)
        ensures
            match r {
                Some(i) => i < self@.entries.len() && self@.entries[i as int].participant
                    == participant@,
                None => !self@.contains(participant@),
            },
    {
        let n = self.entries.len();
        let mut i: usize = 0;
        while i < n
            invariant
                0 <= i <= n,
                n == self.entries.len(),
                forall|j: int|
                    0 <= j < i ==> (#[trigger] self@.entries[j]).participant != participant@,
            decreases n - i,
        {
            if self.entries[i].participant.matches(participant) {
                proof {
                    assert(self@.entries[i as int].participant == participant@);
                }
                return Some(i);
            }
            i = i + 1;
        }
        None
    }

    /// The queue entry of the given participant, if any.
    pub fn current_participant_info(&self, participant: &Participant) -> (r: Option<&QueueEntry>)
        ensures
            match r {
                Some(entry) => self@.contains(participant@) && entry@.participant == participant@
                    && self@.entries.contains(entry@),
                None => !self@.contains(participant@),
            },
    {
        match self.find(participant) {
            Some(i) => {
                proof {
                    assert(self@.entries[i as int] == self.entries[i as int]@);
                }
                Some(&self.entries[i])
            },
            None => None,
        }
    }

    /// Admits a contributor, as [`ParticipantQueueV::spec_add`]
    /// decides. Joining again changes nothing: the entry, and with it
    /// the original position, stays exactly as it was.
    pub fn add_to_queue(
        &mut self,
        participant: Participant,
        ip: String,
        capacity: u64,
        now: u64,
    ) -> (r: Result<(), CoordinatorError>)
        requires
            old(self)@.wf(),
        ensures
            final(self)@.wf(),
            match old(self)@.spec_add(participant@, ip@, capacity, now) {
                Ok(v) => r == Ok::<(), CoordinatorError>(()) && final(self)@ == v,
                Err(e) => r == Err::<(), CoordinatorError>(e) && final(self)@ == old(self)@,
            },
    {
        let ghost decision = old(self)@.spec_add(participant@, ip@, capacity, now);
        if !participant.is_contributor() {
            return Err(CoordinatorError::ExpectedContributor);
        }
        if self.find(&participant).is_some() {
            return Err(CoordinatorError::ParticipantAlreadyAdded);
        }
        let seats = self.count_ip_seats(&ip);
        if seats >= capacity {
            return Err(CoordinatorError::ParticipantIpCapacityReached);
        }
        if self.next_position == u64::MAX {
            return Err(CoordinatorError::StorageFailed);
        }
        let entry = QueueEntry {
            participant,
            ip,
            position: self.next_position,
            joined_at: now,
            last_heartbeat: now,
            status: QueueStatus::Queued,
            evictions: 0,
            pending_tasks: Vec::new(),
            completed_tasks: Vec::new(),
        };
        let ghost pre = self@.entries;
        self.entries.push(entry);
        self.next_position = self.next_position + 1;
        proof {
            assert(entry@.pending_tasks =~= Seq::<Task>::empty());
            assert(entry@.completed_tasks =~= Seq::<Task>::empty());
            assert(self@.entries =~= pre.push(entry@));
            assert(self@.entries == decision->Ok_0.entries);
        }
        Ok(())
    }

    /// The number of seats (queued or active entries) held from the
    /// given IP.
    fn count_ip_seats(&self, ip: &String) -> (r: u64)
        ensures
            r == ParticipantQueueV::ip_seats(self@.entries, ip@),
    {
        let n = self.entries.len();
        let mut count: u64 = 0;
        let mut i: usize = 0;
        while i < n
            invariant
                0 <= i <= n,
                n == self.entries.len(),
                count <= i,
                count == ParticipantQueueV::ip_seats(self@.entries.take(i as int), ip@),
            decreases n - i,
        {
            let ghost prefix = self@.entries.take(i as int);
            let seated = self.entries[i].status == QueueStatus::Queued || self.entries[i].status
                == QueueStatus::Active;
            if seated && self.entries[i].ip == *ip {
                count = count + 1;
            }
            proof {
                assert(self@.entries.take(i + 1).drop_last() =~= prefix);
                assert(self@.entries.take(i + 1).last() == self@.entries[i as int]);
            }
            i = i + 1;
        }
        proof {
            assert(self@.entries.take(n as int) =~= self@.entries);
        }
        count
    }

    /// The number of queued entries with a position below the given
    /// one.
    fn count_queued_before(&self, position: u64) -> (r: u64)
        ensures
            r == ParticipantQueueV::queued_before(self@.entries, position),
    {
        let n = self.entries.len();
        let mut count: u64 = 0;
        let mut i: usize = 0;
        while i < n
            invariant
                0 <= i <= n,
                n == self.entries.len(),
                count <= i,
                count == ParticipantQueueV::queued_before(self@.entries.take(i as int), position),
            decreases n - i,
        {
            let ghost prefix = self@.entries.take(i as int);
            if self.entries[i].status == QueueStatus::Queued && self.entries[i].position
                < position {
                count = count + 1;
            }
            proof {
                assert(self@.entries.take(i + 1).drop_last() =~= prefix);
                assert(self@.entries.take(i + 1).last() == self@.entries[i as int]);
            }
            i = i + 1;
        }
        proof {
            assert(self@.entries.take(n as int) =~= self@.entries);
        }
        count
    }

    /// The number of entries with the given status.
    pub fn count_with_status(&self, status: QueueStatus) -> (r: u64)
        ensures
            r == ParticipantQueueV::count_status(self@.entries, status),
    {
        let n = self.entries.len();
        let mut count: u64 = 0;
        let mut i: usize = 0;
        while i < n
            invariant
                0 <= i <= n,
                n == self.entries.len(),
                count <= i,
                count == ParticipantQueueV::count_status(self@.entries.take(i as int), status),
            decreases n - i,
        {
            let ghost prefix = self@.entries.take(i as int);
            if self.entries[i].status == status {
                count = count + 1;
            }
            proof {
                assert(self@.entries.take(i + 1).drop_last() =~= prefix);
                assert(self@.entries.take(i + 1).last() == self@.entries[i as int]);
            }
            i = i + 1;
        }
        proof {
            assert(self@.entries.take(n as int) =~= self@.entries);
        }
        count
    }

    /// Answers a contributor's status poll, as
    /// [`ParticipantQueueV::spec_status`] decides.
    pub fn contributor_queue_status(&self, participant: &Participant) -> (r: ContributorStatus)
        requires
            self@.wf(),
        ensures
            r == self@.spec_status(participant@),
    {
        match self.find(participant) {
            Some(i) => {
                proof {
                    let j = choose|j: int|
                        0 <= j < self@.entries.len() && (#[trigger] self@.entries[j]).participant
                            == participant@;
                    assert(self@.entries[j] == self@.entries[i as int]);
                }
                match self.entries[i].status {
                    QueueStatus::Queued => {
                        let rank = self.count_queued_before(self.entries[i].position);
                        let size = self.count_with_status(QueueStatus::Queued);
                        ContributorStatus::Queue(rank, size)
                    },
                    QueueStatus::Active => ContributorStatus::Round,
                    QueueStatus::Finished => ContributorStatus::Finished,
                    QueueStatus::Banned => ContributorStatus::Banned,
                }
            },
            None => ContributorStatus::Other,
        }
    }

    /// Refreshes the liveness clock of the given participant. A
    /// repeated heartbeat with the same clock reading changes nothing
    /// further. An unknown participant is refused.
    pub fn heartbeat(&mut self, participant: &Participant, now: u64) -> (r: Result<
        (),
        CoordinatorError,
    >)
        requires
            old(self)@.wf(),
        ensures
            final(self)@.wf(),
            match r {
                Ok(()) => {
                    &&& old(self)@.contains(participant@)
                    &&& exists|i: int|
                        {
                            &&& 0 <= i < old(self)@.entries.len()
                            &&& (#[trigger] old(self)@.entries[i]).participant == participant@
                            &&& final(self)@ == (ParticipantQueueV {
                                entries: old(self)@.entries.update(
                                    i,
                                    QueueEntryV {
                                        last_heartbeat: now,
                                        ..old(self)@.entries[i]
                                    },
                                ),
                                ..old(self)@
                            })
                        }
                },
                Err(e) => {
                    &&& e == CoordinatorError::ParticipantMissing
                    &&& !old(self)@.contains(participant@)
                    &&& final(self)@ == old(self)@
                },
            },
    {
        match self.find(participant) {
            Some(i) => {
                let ghost pre = self@.entries;
                self.entries[i].last_heartbeat = now;
                proof {
                    assert(self@.entries =~= pre.update(
                        i as int,
                        QueueEntryV { last_heartbeat: now, ..pre[i as int] },
                    ));
                }
                Ok(())
            },
            None => Err(CoordinatorError::ParticipantMissing),
        }
    }

    /// The index of some active entry whose heartbeat has timed out,
    /// if any is left.
    pub fn find_stale_active(&self, now: u64, timeout: u64) -> (r: Option<usize>)
        ensures
            match r {
                Some(i) => {
                    &&& i < self@.entries.len()
                    &&& stale(self@.entries[i as int], now, timeout)
                    &&& forall|j: int|
                        0 <= j < i ==> !stale(#[trigger] self@.entries[j], now, timeout)
                },
                None => forall|i: int|
                    0 <= i < self@.entries.len() ==> !stale(
                        #[trigger] self@.entries[i],
                        now,
                        timeout,
                    ),
            },
    {
        let n = self.entries.len();
        let mut i: usize = 0;
        while i < n
            invariant
                0 <= i <= n,
                n == self.entries.len(),
                forall|j: int| 0 <= j < i ==> !stale(#[trigger] self@.entries[j], now, timeout),
            decreases n - i,
        {
            let e = &self.entries[i];
            if e.status == QueueStatus::Active && now > e.last_heartbeat && now - e.last_heartbeat
                > timeout {
                proof {
                    assert(stale(self@.entries[i as int], now, timeout));
                }
                return Some(i);
            }
            i = i + 1;
        }
        None
    }

    /// Evicts the entry at the given index, returning its participant
    /// so the caller can release the chunk locks it held.
    pub fn evict_at(&mut self, i: usize, now: u64) -> (p: Participant)
        requires
            old(self)@.wf(),
            i < old(self)@.entries.len(),
        ensures
            final(self)@.wf(),
            p@ == old(self)@.entries[i as int].participant,
            final(self)@ == (ParticipantQueueV {
                entries: old(self)@.entries.update(
                    i as int,
                    evicted_form(old(self)@.entries[i as int], now),
                ),
                ..old(self)@
            }),
    {
        let ghost pre = self@.entries;
        let p = self.entries[i].participant.clone();
        if self.entries[i].evictions >= 1 {
            self.entries[i].status = QueueStatus::Banned;
        } else {
            self.entries[i].status = QueueStatus::Queued;
        }
        if self.entries[i].evictions < u64::MAX {
            self.entries[i].evictions = self.entries[i].evictions + 1;
        }
        self.entries[i].last_heartbeat = now;
        self.entries[i].pending_tasks = Vec::new();
        proof {
            assert(self.entries[i as int]@.pending_tasks =~= Seq::<Task>::empty());
            assert(self@.entries =~= pre.update(i as int, evicted_form(pre[i as int], now)));
        }
        p
    }

    /// Bans the given participant outright, discarding its pending
    /// tasks, as follows a failed contribution verification. An
    /// unknown participant is refused.
    pub fn ban(&mut self, participant: &Participant) -> (r: Result<(), CoordinatorError>)
        requires
            old(self)@.wf(),
        ensures
            final(self)@.wf(),
            match r {
                Ok(()) => {
                    &&& old(self)@.contains(participant@)
                    &&& exists|i: int|
                        {
                            &&& 0 <= i < old(self)@.entries.len()
                            &&& (#[trigger] old(self)@.entries[i]).participant == participant@
                            &&& final(self)@ == (ParticipantQueueV {
                                entries: old(self)@.entries.update(
                                    i,
                                    banned_form(old(self)@.entries[i]),
                                ),
                                ..old(self)@
                            })
                        }
                },
                Err(e) => {
                    &&& e == CoordinatorError::ParticipantMissing
                    &&& !old(self)@.contains(participant@)
                    &&& final(self)@ == old(self)@
                },
            },
    {
        match self.find(participant) {
            Some(i) => {
                let ghost pre = self@.entries;
                self.entries[i].status = QueueStatus::Banned;
                self.entries[i].pending_tasks = Vec::new();
                proof {
                    assert(self.entries[i as int]@.pending_tasks =~= Seq::<Task>::empty());
                    assert(self@.entries =~= pre.update(i as int, banned_form(pre[i as int])));
                }
                Ok(())
            },
            None => Err(CoordinatorError::ParticipantMissing),
        }
    }

    /// The index of the queued entry with the lowest position: the
    /// next contributor in line, if any.
    pub fn find_next_queued(&self) -> (r: Option<usize>)
        ensures
            match r {
                Some(i) => {
                    &&& i < self@.entries.len()
                    &&& self@.entries[i as int].status == QueueStatus::Queued
                    &&& forall|j: int|
                        0 <= j < self@.entries.len() && (#[trigger] self@.entries[j]).status
                            == QueueStatus::Queued ==> self@.entries[i as int].position
                            <= self@.entries[j].position
                    &&& forall|j: int|
                        0 <= j < i && (#[trigger] self@.entries[j]).status == QueueStatus::Queued
                            ==> self@.entries[j].position > self@.entries[i as int].position
                },
                None => forall|j: int|
                    0 <= j < self@.entries.len() ==> (#[trigger] self@.entries[j]).status
                        != QueueStatus::Queued,
            },
    {
        let n = self.entries.len();
        let mut best: Option<usize> = None;
        let mut i: usize = 0;
        while i < n
            invariant
                0 <= i <= n,
                n == self.entries.len(),
                match best {
                    Some(b) => {
                        &&& b < i
                        &&& self@.entries[b as int].status == QueueStatus::Queued
                        &&& forall|j: int|
                            0 <= j < i && (#[trigger] self@.entries[j]).status
                                == QueueStatus::Queued ==> self@.entries[b as int].position
                                <= self@.entries[j].position
                        &&& forall|j: int|
                            0 <= j < b && (#[trigger] self@.entries[j]).status
                                == QueueStatus::Queued ==> self@.entries[j].position
                                > self@.entries[b as int].position
                    },
                    None => forall|j: int|
                        0 <= j < i ==> (#[trigger] self@.entries[j]).status != QueueStatus::Queued,
                },
            decreases n - i,
        {
            if self.entries[i].status == QueueStatus::Queued {
                match best {
                    Some(b) => {
                        if self.entries[i].position < self.entries[b].position {
                            best = Some(i);
                        }
                    },
                    None => {
                        best = Some(i);
                    },
                }
            }
            i = i + 1;
        }
        best
    }

    /// Promotes the queued entry at the given index into the active
    /// round, handing it its pending tasks.
    pub fn promote_at(&mut self, i: usize, tasks: Vec<Task>) -> (p: Participant)
        requires
            old(self)@.wf(),
            i < old(self)@.entries.len(),
            old(self)@.entries[i as int].status == QueueStatus::Queued,
        ensures
            final(self)@.wf(),
            p@ == old(self)@.entries[i as int].participant,
            final(self)@ == (ParticipantQueueV {
                entries: old(self)@.entries.update(
                    i as int,
                    QueueEntryV {
                        status: QueueStatus::Active,
                        pending_tasks: tasks.deep_view(),
                        ..old(self)@.entries[i as int]
                    },
                ),
                ..old(self)@
            }),
    {
        let ghost pre = self@.entries;
        let p = self.entries[i].participant.clone();
        self.entries[i].status = QueueStatus::Active;
        self.entries[i].pending_tasks = tasks;
        proof {
            assert(self@.entries =~= pre.update(
                i as int,
                QueueEntryV {
                    status: QueueStatus::Active,
                    pending_tasks: self.entries[i as int].pending_tasks.deep_view(),
                    ..pre[i as int]
                },
            ));
        }
        p
    }

    /// Records that the given participant finished the given task:
    /// the task moves from its pending list to its completed list,
    /// and a contributor with nothing further pending is finished.
    pub fn complete_task(&mut self, participant: &Participant, task: Task) -> (r: Result<
        (),
        CoordinatorError,
    >)
        requires
            old(self)@.wf(),
        ensures
            final(self)@.wf(),
            match r {
                Ok(()) => exists|i: int, t: int|
                    {
                        &&& 0 <= i < old(self)@.entries.len()
                        &&& (#[trigger] old(self)@.entries[i]).participant == participant@
                        &&& 0 <= t < old(self)@.entries[i].pending_tasks.len()
                        &&& #[trigger] old(self)@.entries[i].pending_tasks[t] == task
                        &&& final(self)@ == (ParticipantQueueV {
                            entries: old(self)@.entries.update(
                                i,
                                QueueEntryV {
                                    status: if old(self)@.entries[i].pending_tasks.len() == 1 {
                                        QueueStatus::Finished
                                    } else {
                                        old(self)@.entries[i].status
                                    },
                                    pending_tasks: old(self)@.entries[i].pending_tasks.remove(t),
                                    completed_tasks: old(self)@.entries[i].completed_tasks.push(
                                        task,
                                    ),
                                    ..old(self)@.entries[i]
                                },
                            ),
                            ..old(self)@
                        })
                    },
                Err(e) => {
                    &&& final(self)@ == old(self)@
                    &&& (e == CoordinatorError::ParticipantMissing && !old(self)@.contains(
                        participant@,
                    )) || (e == CoordinatorError::ParticipantNoPendingTasks && old(self)@.contains(
                        participant@,
                    ) && forall|i: int|
                        0 <= i < old(self)@.entries.len() && (
                        #[trigger] old(self)@.entries[i]).participant == participant@ ==> !old(
                            self,
                        )@.entries[i].pending_tasks.contains(task))
                },
            },
    {
        match self.find(participant) {
            Some(i) => {
                let n = self.entries[i].pending_tasks.len();
                let mut t: usize = 0;
                while t < n
                    invariant
                        0 <= t <= n,
                        self@ == old(self)@,
                        old(self)@.wf(),
                        i < self.entries.len(),
                        self@.entries[i as int].participant == participant@,
                        n == self.entries[i as int].pending_tasks.len(),
                        forall|k: int|
                            0 <= k < t ==> self.entries[i as int]@.pending_tasks[k] != task,
                    decreases n - t,
                {
                    if self.entries[i].pending_tasks[t] == task {
                        let ghost pre = self@.entries;
                        let removed = self.entries[i].pending_tasks.remove(t);
                        self.entries[i].completed_tasks.push(removed);
                        if self.entries[i].pending_tasks.len() == 0 {
                            self.entries[i].status = QueueStatus::Finished;
                        }
                        proof {
                            assert(self.entries[i as int]@.pending_tasks
                                =~= pre[i as int].pending_tasks.remove(t as int));
                            assert(self.entries[i as int]@.completed_tasks =~= pre[i
                                as int].completed_tasks.push(task));
                            assert(self@.entries =~= pre.update(
                                i as int,
                                QueueEntryV {
                                    status: if pre[i as int].pending_tasks.len() == 1 {
                                        QueueStatus::Finished
                                    } else {
                                        pre[i as int].status
                                    },
                                    pending_tasks: pre[i as int].pending_tasks.remove(t as int),
                                    completed_tasks: pre[i as int].completed_tasks.push(task),
                                    ..pre[i as int]
                                },
                            ));
                            assert((#[trigger] old(self)@.entries[i as int]).participant
                                == participant@);
                            assert(#[trigger] old(self)@.entries[i as int].pending_tasks[t as int]
                                == task);
                            assert(self@ == (ParticipantQueueV {
                                entries: old(self)@.entries.update(
                                    i as int,
                                    QueueEntryV {
                                        status: if old(self)@.entries[i as int].pending_tasks.len()
                                            == 1 {
                                            QueueStatus::Finished
                                        } else {
                                            old(self)@.entries[i as int].status
                                        },
                                        pending_tasks: old(self)@.entries[
                                            i as int
                                        ].pending_tasks.remove(t as int),
                                        completed_tasks: old(self)@.entries[
                                            i as int
                                        ].completed_tasks.push(task),
                                        ..old(self)@.entries[i as int]
                                    },
                                ),
                                ..old(self)@
                            }));
                        }
                        return Ok(());
                    }
                    t = t + 1;
                }
                proof {
                    assert forall|j: int|
                        0 <= j < self@.entries.len() && (#[trigger] self@.entries[j]).participant
                            == participant@ implies !self@.entries[j].pending_tasks.contains(
                        task,
                    ) by {
                        assert(self@.entries[j] == self@.entries[i as int]);
                    }
                }
                Err(CoordinatorError::ParticipantNoPendingTasks)
            },
            None => Err(CoordinatorError::ParticipantMissing),
        }
    }
}

/// A repeated admission of a pubkey already in the queue is rejected
/// and leaves the queue — in particular that contributor's original
/// position — exactly as it was.
pub proof fn lemma_join_queue_idempotent(
    q: ParticipantQueueV,
    p: ParticipantV,
    ip: Seq<char>,
    capacity: u64,
    now: u64,
)
    requires
        q.wf(),
        q.contains(p),
    ensures
        q.spec_add(p, ip, capacity, now) == Err::<ParticipantQueueV, CoordinatorError>(
            CoordinatorError::ParticipantAlreadyAdded,
        ),
{
    let i = choose|i: int| 0 <= i < q.entries.len() && (#[trigger] q.entries[i]).participant == p;
    assert(q.entries[i].participant.is_contributor());
}

/// A repeated heartbeat is a no-op: refreshing a liveness clock to
/// the reading it already shows leaves the queue unchanged.
pub proof fn lemma_heartbeat_idempotent(q: ParticipantQueueV, i: int, now: u64)
    requires
        0 <= i < q.entries.len(),
    ensures
        ({
            let q1 = ParticipantQueueV {
                entries: q.entries.update(
                    i,
                    QueueEntryV { last_heartbeat: now, ..q.entries[i] },
                ),
                ..q
            };
            let q2 = ParticipantQueueV {
                entries: q1.entries.update(
                    i,
                    QueueEntryV { last_heartbeat: now, ..q1.entries[i] },
                ),
                ..q1
            };
            q2 == q1
        }),
{
    let q1 = ParticipantQueueV {
        entries: q.entries.update(i, QueueEntryV { last_heartbeat: now, ..q.entries[i] }),
        ..q
    };
    let q2 = ParticipantQueueV {
        entries: q1.entries.update(i, QueueEntryV { last_heartbeat: now, ..q1.entries[i] }),
        ..q1
    };
    assert(q2.entries =~= q1.entries);
}

} // verus!
