use std::collections::VecDeque;
use vstd::prelude::*;

use crate::error::Error;
use crate::job::{Failure, Job, Size, Status, StepEvent, VariantKey, MAX_RETRIES};
use crate::media::{format_named, Format};

verus! {

/// How a variant request was answered.
#[derive(Debug, Clone, Copy, PartialEq, Eq, Structural)]
pub enum Admission {
    /// The artifact is already on storage: serve it, no job involved.
    Existing,
    /// An equivalent job is pending or in flight: this is its id.
    Joined(u64),
    /// A new job with this id was created and queued.
    Created(u64),
}

/// What a status query reports of a job.
#[derive(Debug, Clone, Copy, PartialEq, Eq, Structural)]
pub struct JobSummary {
    pub id: u64,
    pub status: Status,
    pub worker_id: Option<u128>,
    pub failure: Option<Failure>,
    pub retries: u32,
    pub created_at: u64,
    pub updated_at: u64,
}

/// A summary of a job in a reachable state: who holds it fits its state, and
/// it was not updated before it was created.
pub open spec fn summary_consistent(s: JobSummary) -> bool {
    &&& s.status is Waiting ==> s.worker_id is None
    &&& s.status.is_held() ==> s.worker_id is Some
    &&& s.created_at <= s.updated_at
}

pub open spec fn summary_of(j: Job) -> JobSummary {
    JobSummary {
        id: j.id,
        status: j.status,
        worker_id: j.worker_id,
        failure: j.failure,
        retries: j.retries,
        created_at: j.created_at,
        updated_at: j.updated_at,
    }
}

/// Each job sits at the index equal to its id and keeps its own invariant.
pub open spec fn jobs_wf(jobs: Seq<Job>) -> bool {
    forall|i: int| 0 <= i < jobs.len() ==> (#[trigger] jobs[i]).id == i && jobs[i].wf()
}

/// At most one pending or in-flight job per variant key.
pub open spec fn no_duplicate_active(jobs: Seq<Job>) -> bool {
    forall|i: int, j: int|
        0 <= i < jobs.len() && 0 <= j < jobs.len() && i != j && (#[trigger] jobs[i]).is_active()
            && (#[trigger] jobs[j]).is_active() ==> jobs[i].key() != jobs[j].key()
}

/// Jobs are never removed, and a job in a terminal state stays exactly as it was.
pub open spec fn terminal_kept(before: Seq<Job>, after: Seq<Job>) -> bool {
    &&& before.len() <= after.len()
    &&& forall|i: int|
        0 <= i < before.len() && (#[trigger] before[i]).status.is_terminal() ==> after[i]
            == before[i]
}

pub open spec fn active_for(jobs: Seq<Job>, i: int, key: VariantKey) -> bool {
    0 <= i < jobs.len() && jobs[i].is_active() && jobs[i].key() == key
}

pub open spec fn has_active(jobs: Seq<Job>, key: VariantKey) -> bool {
    exists|i: int| active_for(jobs, i, key)
}

/// The error a step report gets, if any.
pub open spec fn step_error(jobs: Seq<Job>, job_id: u64, worker: u128, e: StepEvent) -> Option<
    Error,
> {
    if job_id >= jobs.len() {
        Some(Error::NotFound)
    } else if !jobs[job_id as int].status.is_held() || jobs[job_id as int].worker_id != Some(
        worker,
    ) {
        Some(Error::NotClaimed)
    } else if !Job::fits(jobs[job_id as int].status, e) {
        Some(Error::InvalidTransition)
    } else {
        None
    }
}

/// A held job whose holder has not reported for longer than `timeout`.
pub open spec fn is_stale(j: Job, now: u64, timeout: u64) -> bool {
    j.status.is_held() && j.updated_at < now && now - j.updated_at > timeout
}

pub open spec fn reaped(j: Job, now: u64, timeout: u64) -> Job {
    if is_stale(j, now, timeout) {
        j.failed_with(Failure::WorkerTimeout, now)
    } else {
        j
    }
}

/// Ids of the stale jobs that the reaper puts back on the queue, in order.
pub open spec fn requeued_ids(jobs: Seq<Job>, now: u64, timeout: u64) -> Seq<u64>
    decreases jobs.len(),
{
    if jobs.len() == 0 {
        seq![]
    } else {
        let last = jobs.last();
        requeued_ids(jobs.drop_last(), now, timeout) + if is_stale(last, now, timeout) && reaped(
            last,
            now,
            timeout,
        ).status is Waiting {
            seq![last.id]
        } else {
            seq![]
        }
    }
}

/// The outcome of a variant request on a store in state `before`: an unknown
/// format is refused, an existing artifact is served, an equivalent active job
/// is joined, and otherwise one new waiting job is created and queued.
pub open spec fn requested(
    before: JobStore,
    file_id: u128,
    width: u32,
    height: u32,
    format: Seq<char>,
    artifact_exists: bool,
    now: u64,
    r: Result<Admission, Error>,
    after: JobStore,
) -> bool {
    match format_named(format) {
        None => r == Err::<Admission, Error>(Error::MimeNotSupported) && after.jobs()
            == before.jobs() && after.queue() == before.queue(),
        Some(f) => {
            let key = VariantKey { file_id, size: Size { width, height }, format: f };
            if artifact_exists {
                r == Ok::<Admission, Error>(Admission::Existing) && after.jobs() == before.jobs()
                    && after.queue() == before.queue()
            } else if has_active(before.jobs(), key) {
                &&& r matches Ok(Admission::Joined(id)) && active_for(before.jobs(), id as int, key)
                &&& after.jobs() == before.jobs()
                &&& after.queue() == before.queue()
            } else {
                let id = before.jobs().len() as u64;
                &&& r == Ok::<Admission, Error>(Admission::Created(id))
                &&& after.jobs() == before.jobs().push(Job::created(id, key, now))
                &&& after.queue() == before.queue().push(id)
            }
        },
    }
}

/// Dedup: two identical requests for a variant that is not on storage leave
/// exactly one active job for it, and both are answered with that job.
pub proof fn lemma_identical_requests_share_one_job(
    s0: JobStore,
    s1: JobStore,
    s2: JobStore,
    file_id: u128,
    width: u32,
    height: u32,
    format: Seq<char>,
    now1: u64,
    now2: u64,
    r1: Result<Admission, Error>,
    r2: Result<Admission, Error>,
)
    requires
        s0.wf(),
        s1.wf(),
        s0.jobs().len() < u64::MAX,
        format_named(format) is Some,
        requested(s0, file_id, width, height, format, false, now1, r1, s1),
        requested(s1, file_id, width, height, format, false, now2, r2, s2),
    ensures
        s2.jobs().len() == s0.jobs().len() + if has_active(
            s0.jobs(),
            VariantKey {
                file_id,
                size: Size { width, height },
                format: format_named(format)->0,
            },
        ) {
            0int
        } else {
            1int
        },
        r2 matches Ok(Admission::Joined(id2)) && (r1 == Ok::<Admission, Error>(
            Admission::Joined(id2),
        ) || r1 == Ok::<Admission, Error>(Admission::Created(id2))),
{
    let key = VariantKey { file_id, size: Size { width, height }, format: format_named(format)->0 };
    let id1: u64 = match r1 {
        Ok(Admission::Joined(id)) => id,
        Ok(Admission::Created(id)) => id,
        _ => 0,
    };
    if !has_active(s0.jobs(), key) {
        assert(s1.jobs()[s0.jobs().len() as int] == Job::created(id1, key, now1));
    }
    assert(active_for(s1.jobs(), id1 as int, key));
    assert(has_active(s1.jobs(), key));
    let id2: u64 = match r2 {
        Ok(Admission::Joined(id)) => id,
        _ => 0,
    };
    assert(active_for(s1.jobs(), id2 as int, key));
    assert(id1 == id2) by {
        if id1 != id2 {
            assert(s1.jobs()[id1 as int].is_active() && s1.jobs()[id2 as int].is_active());
        }
    }
}

/// Terminal states are absorbing across any sequence of store operations:
/// what each call keeps, the sequence keeps.
pub proof fn lemma_terminal_kept_across_calls(a: Seq<Job>, b: Seq<Job>, c: Seq<Job>)
    requires
        terminal_kept(a, b),
        terminal_kept(b, c),
    ensures
        terminal_kept(a, c),
{
    assert forall|i: int| 0 <= i < a.len() && (#[trigger] a[i]).status.is_terminal() implies c[i]
        == a[i] by {
        assert(b[i] == a[i]);
    }
}

/// Ids and creation times never change, and `updated_at` never decreases.
pub open spec fn stamps_kept(before: Seq<Job>, after: Seq<Job>) -> bool {
    &&& before.len() <= after.len()
    &&& forall|i: int|
        0 <= i < before.len() ==> (#[trigger] after[i]).id == before[i].id && after[i].created_at
            == before[i].created_at && after[i].updated_at >= before[i].updated_at
}

/// Over any sequence of store operations, a job keeps its id and creation
/// time and its `updated_at` never moves backwards.
pub proof fn lemma_stamps_kept_across_calls(a: Seq<Job>, b: Seq<Job>, c: Seq<Job>)
    requires
        stamps_kept(a, b),
        stamps_kept(b, c),
    ensures
        stamps_kept(a, c),
{
    assert forall|i: int| 0 <= i < a.len() implies (#[trigger] c[i]).id == a[i].id
        && c[i].created_at == a[i].created_at && c[i].updated_at >= a[i].updated_at by {
        assert(b[i].id == a[i].id);
    }
}

/// Requeued ids of a prefix extend by the next job's contribution.
proof fn lemma_requeued_ids_step(jobs: Seq<Job>, i: int, now: u64, timeout: u64)
    requires
        0 <= i < jobs.len(),
    ensures
        requeued_ids(jobs.subrange(0, i + 1), now, timeout) == requeued_ids(
            jobs.subrange(0, i),
            now,
            timeout,
        ) + if is_stale(jobs[i], now, timeout) && reaped(jobs[i], now, timeout).status is Waiting {
            seq![jobs[i].id]
        } else {
            seq![]
        },
{
    assert(jobs.subrange(0, i + 1).drop_last() =~= jobs.subrange(0, i));
}

pub open spec fn is_waiting(jobs: Seq<Job>, id: u64) -> bool {
    id < jobs.len() && jobs[id as int].status is Waiting
}

/// How many queue entries a worker pops: up to and including the first id
/// whose job is waiting, or the whole queue when there is none.
pub open spec fn claim_point(jobs: Seq<Job>, q: Seq<u64>) -> int
    decreases q.len(),
{
    if q.len() == 0 {
        0
    } else if is_waiting(jobs, q[0]) {
        1
    } else {
        1 + claim_point(jobs, q.drop_first())
    }
}

/// The id a worker claims from queue `q`, if any.
pub open spec fn claimed_id(jobs: Seq<Job>, q: Seq<u64>) -> Option<u64> {
    let k = claim_point(jobs, q);
    if k > 0 && is_waiting(jobs, q[k - 1]) {
        Some(q[k - 1])
    } else {
        None
    }
}

/// The reaper requeues a stuck job: a held job whose holder has been silent
/// past the timeout, with retries left, becomes waiting with no holder, and
/// its id is among those put back on the queue.
pub proof fn lemma_reaper_requeues_stuck_job(jobs: Seq<Job>, i: int, now: u64, timeout: u64)
    requires
        0 <= i < jobs.len(),
        is_stale(jobs[i], now, timeout),
        jobs[i].retries < MAX_RETRIES,
    ensures
        reaped(jobs[i], now, timeout).status is Waiting,
        reaped(jobs[i], now, timeout).worker_id is None,
        requeued_ids(jobs, now, timeout).contains(jobs[i].id),
    decreases jobs.len(),
{
    let tail = if is_stale(jobs.last(), now, timeout) && reaped(jobs.last(), now, timeout).status is Waiting {
        seq![jobs.last().id]
    } else {
        seq![]
    };
    let head = requeued_ids(jobs.drop_last(), now, timeout);
    assert(requeued_ids(jobs, now, timeout) == head + tail);
    if i == jobs.len() - 1 {
        assert((head + tail)[head.len() as int] == jobs[i].id);
    } else {
        lemma_reaper_requeues_stuck_job(jobs.drop_last(), i, now, timeout);
        let k = choose|k: int| 0 <= k < head.len() && head[k] == jobs[i].id;
        assert((head + tail)[k] == jobs[i].id);
    }
}

/// Durable record of all jobs, and the queue of job ids waiting for a worker.
pub struct JobStore {
    jobs: Vec<Job>,
    queue: VecDeque<u64>,
}

/// Updating one job keeps the dedup rule when the key stays and the job does
/// not become active.
proof fn lemma_update_keeps_dedup(jobs: Seq<Job>, i: int, nj: Job)
    requires
        no_duplicate_active(jobs),
        0 <= i < jobs.len(),
        nj.key() == jobs[i].key(),
        nj.is_active() ==> jobs[i].is_active(),
    ensures
        no_duplicate_active(jobs.update(i, nj)),
{
    let nu = jobs.update(i, nj);
    assert forall|a: int, b: int|
        0 <= a < nu.len() && 0 <= b < nu.len() && a != b && (#[trigger] nu[a]).is_active()
            && (#[trigger] nu[b]).is_active() implies nu[a].key() != nu[b].key() by {
        assert(jobs[a].is_active() && jobs[b].is_active());
        assert(nu[a].key() == jobs[a].key());
        assert(nu[b].key() == jobs[b].key());
    }
}

impl JobStore {
    pub closed spec fn jobs(&self) -> Seq<Job> {
        self.jobs@
    }

    pub closed spec fn queue(&self) -> Seq<u64> {
        self.queue@
    }

    pub open spec fn wf(&self) -> bool {
        &&& jobs_wf(self.jobs())
        &&& no_duplicate_active(self.jobs())
        &&& forall|k: int| 0 <= k < self.queue().len() ==> #[trigger] self.queue()[k] < self.jobs().len()
    }

    /// An empty store.
    pub fn new() -> (r: JobStore)
        ensures
            r.wf(),
            r.jobs().len() == 0,
            r.queue().len() == 0,
    {
        JobStore { jobs: Vec::new(), queue: VecDeque::new() }
    }

    /// Number of jobs ever created.
    pub fn len(&self) -> (r: usize)
        ensures
            r == self.jobs().len(),
    {
        self.jobs.len()
    }

    /// Number of job ids waiting on the queue.
    pub fn queued(&self) -> (r: usize)
        ensures
            r == self.queue().len(),
    {
        self.queue.len()
    }
    /// Index of the active job for `key`, if there is one.
    fn find_active(&self, key: VariantKey) -> (r: Option<u64>)
        requires
            self.wf(),
        ensures
            r matches Some(id) ==> active_for(self.jobs(), id as int, key),
            r is None ==> !has_active(self.jobs(), key),
    {
        let n = self.jobs.len();
        let mut i: usize = 0;
        while i < n
            invariant
                n == self.jobs().len(),
                jobs_wf(self.jobs()),
                i <= n,
                forall|k: int| 0 <= k < i ==> !active_for(self.jobs(), k, key),
            decreases n - i,
        {
            let j = self.jobs[i];
            let jk = VariantKey { file_id: j.file_id, size: j.size, format: j.format };
            if !j.status.terminal() && jk == key {
                assert(self.jobs()[i as int] == j);
                return Some(j.id);
            }
            i = i + 1;
        }
        None
    }

    /// Admits a request for a variant. `artifact_exists` tells whether the
    /// variant's storage address already holds the artifact.
    pub fn request_variant(
        &mut self,
        file_id: u128,
        width: u32,
        height: u32,
        format: &str,
        artifact_exists: bool,
        now: u64,
    ) -> (r: Result<Admission, Error>)
        requires
            old(self).wf(),
            old(self).jobs().len() < u64::MAX,
        ensures
            final(self).wf(),
            requested(*old(self), file_id, width, height, format@, artifact_exists, now, r, *final(self)),
            terminal_kept(old(self).jobs(), final(self).jobs()),
            stamps_kept(old(self).jobs(), final(self).jobs()),
    {
        let f = match Format::from_name(format) {
            None => return Err(Error::MimeNotSupported),
            Some(f) => f,
        };
        if artifact_exists {
            return Ok(Admission::Existing);
        }
        let key = VariantKey { file_id, size: Size { width, height }, format: f };
        match self.find_active(key) {
            Some(id) => Ok(Admission::Joined(id)),
            None => {
                let id = self.jobs.len() as u64;
                let job = Job {
                    id,
                    file_id,
                    size: key.size,
                    format: f,
                    status: Status::Waiting,
                    worker_id: None,
                    failure: None,
                    retries: 0,
                    created_at: now,
                    updated_at: now,
                };
                assert(job == Job::created(id, key, now));
                let ghost before = self.jobs@;
                let ghost before_q = self.queue@;
                assert(before_q == old(self).queue() && before == old(self).jobs());
                self.jobs.push(job);
                self.queue.push_back(id);
                assert forall|i: int, j: int|
                    0 <= i < self.jobs@.len() && 0 <= j < self.jobs@.len() && i != j
                        && (#[trigger] self.jobs@[i]).is_active()
                        && (#[trigger] self.jobs@[j]).is_active() implies self.jobs@[i].key()
                    != self.jobs@[j].key() by {
                    if i == before.len() {
                        assert(!active_for(before, j, key));
                    } else if j == before.len() {
                        assert(!active_for(before, i, key));
                    }
                }
                assert(self.jobs@[id as int] == job);
                assert(jobs_wf(self.jobs@));
                assert forall|k: int| 0 <= k < self.queue@.len() implies #[trigger] self.queue@[k]
                    < self.jobs@.len() by {
                    if k < before_q.len() {
                        assert(self.queue@[k] == before_q[k]);
                        assert(old(self).queue()[k] < old(self).jobs().len());
                    }
                }
                Ok(Admission::Created(id))
            },
        }
    }
    /// Position of job `id` in the record, when such a job exists.
    fn index_of(&self, id: u64) -> (r: Option<usize>)
        ensures
            r matches Some(i) ==> i == id && id < self.jobs().len(),
            r is None ==> id >= self.jobs().len(),
    {
        if (id as u128) < (self.jobs.len() as u128) {
            Some(id as usize)
        } else {
            None
        }
    }

    /// Replaces a non-terminal job by a successor with the same id and key.
    fn set_job(&mut self, i: usize, nj: Job)
        requires
            old(self).wf(),
            i < old(self).jobs().len(),
            nj.id == i,
            nj.wf(),
            nj.key() == old(self).jobs()[i as int].key(),
            nj.is_active() ==> old(self).jobs()[i as int].is_active(),
            !old(self).jobs()[i as int].status.is_terminal(),
            nj.created_at == old(self).jobs()[i as int].created_at,
            nj.updated_at >= old(self).jobs()[i as int].updated_at,
        ensures
            final(self).wf(),
            final(self).jobs() == old(self).jobs().update(i as int, nj),
            final(self).queue() == old(self).queue(),
            terminal_kept(old(self).jobs(), final(self).jobs()),
            stamps_kept(old(self).jobs(), final(self).jobs()),
    {
        proof {
            lemma_update_keeps_dedup(self.jobs@, i as int, nj);
        }
        self.jobs.set(i, nj);
        assert forall|k: int| 0 <= k < self.queue().len() implies #[trigger] self.queue()[k]
            < self.jobs().len() by {
            assert(old(self).queue()[k] < old(self).jobs().len());
        }
    }

    /// Puts a waiting job back on the queue.
    fn enqueue(&mut self, id: u64)
        requires
            old(self).wf(),
            id < old(self).jobs().len(),
        ensures
            final(self).wf(),
            final(self).jobs() == old(self).jobs(),
            final(self).queue() == old(self).queue().push(id),
    {
        let ghost q = self.queue@;
        self.queue.push_back(id);
        assert forall|k: int| 0 <= k < self.queue().len() implies #[trigger] self.queue()[k]
            < self.jobs().len() by {
            if k < q.len() {
                assert(old(self).queue()[k] < old(self).jobs().len());
            }
        }
    }

    /// Atomic claim: a waiting job becomes `Verifying` and is stamped with
    /// `worker`; any other job is left alone and the claim fails.
    pub fn claim(&mut self, job_id: u64, worker: u128, now: u64) -> (r: bool)
        requires
            old(self).wf(),
        ensures
            final(self).wf(),
            r == (job_id < old(self).jobs().len() && old(self).jobs()[job_id as int].status is Waiting),
            r ==> final(self).jobs() == old(self).jobs().update(
                job_id as int,
                old(self).jobs()[job_id as int].claimed(worker, now),
            ),
            !r ==> final(self).jobs() == old(self).jobs(),
            final(self).queue() == old(self).queue(),
            terminal_kept(old(self).jobs(), final(self).jobs()),
            stamps_kept(old(self).jobs(), final(self).jobs()),
    {
        let i = match self.index_of(job_id) {
            None => return false,
            Some(i) => i,
        };
        let j = self.jobs[i];
        assert(j == self.jobs()[job_id as int]);
        match j.status {
            Status::Waiting => {
                let nj = j.claim_by(worker, now);
                self.set_job(i, nj);
                true
            },
            _ => false,
        }
    }

    /// A worker takes work: ids are popped from the front of the queue until
    /// one is claimed; ids whose jobs are no longer waiting are discarded.
    pub fn claim_next(&mut self, worker: u128, now: u64) -> (r: Option<u64>)
        requires
            old(self).wf(),
        ensures
            final(self).wf(),
            terminal_kept(old(self).jobs(), final(self).jobs()),
            stamps_kept(old(self).jobs(), final(self).jobs()),
            r == claimed_id(old(self).jobs(), old(self).queue()),
            final(self).queue() == old(self).queue().subrange(
                claim_point(old(self).jobs(), old(self).queue()),
                old(self).queue().len() as int,
            ),
            match r {
                Some(id) => final(self).jobs() == old(self).jobs().update(
                    id as int,
                    old(self).jobs()[id as int].claimed(worker, now),
                ),
                None => final(self).jobs() == old(self).jobs(),
            },
    {
        let ghost q0 = self.queue@;
        let ghost j0 = self.jobs@;
        let ghost mut k: int = 0;
        loop
            invariant
                self.wf(),
                self.jobs() == j0,
                j0 == old(self).jobs(),
                q0 == old(self).queue(),
                0 <= k <= q0.len(),
                self.queue() == q0.subrange(k, q0.len() as int),
                claim_point(j0, q0) == k + claim_point(j0, q0.subrange(k, q0.len() as int)),
                k > 0 ==> !is_waiting(j0, q0[k - 1]),
            decreases self.queue().len(),
        {
            let ghost qb = self.queue@;
            match self.queue.pop_front() {
                None => {
                    assert(claim_point(j0, qb) == 0);
                    return None;
                },
                Some(id) => {
                    proof {
                        assert(qb[0] == q0[k]);
                        assert(qb.drop_first() =~= q0.subrange(k + 1, q0.len() as int));
                        k = k + 1;
                        assert(self.queue@ =~= q0.subrange(k, q0.len() as int));
                        assert(old(self).queue()[k - 1] < old(self).jobs().len());
                        assert forall|m: int| 0 <= m < self.queue().len() implies #[trigger] self.queue()[m]
                            < self.jobs().len() by {
                            assert(self.queue()[m] == q0[m + k]);
                            assert(old(self).queue()[m + k] < old(self).jobs().len());
                        }
                    }
                    if self.claim(id, worker, now) {
                        assert(claim_point(j0, qb) == 1);
                        assert(q0[k - 1] == id);
                        return Some(id);
                    }
                },
            }
        }
    }

    /// A worker reports the outcome of the step its job is in. Only the worker
    /// holding the job may report, and only a step that fits the job's state;
    /// the job then moves on, and a requeued job goes back on the queue.
    pub fn report(&mut self, job_id: u64, worker: u128, e: StepEvent, now: u64) -> (r: Result<
        Status,
        Error,
    >)
        requires
            old(self).wf(),
        ensures
            final(self).wf(),
            terminal_kept(old(self).jobs(), final(self).jobs()),
            stamps_kept(old(self).jobs(), final(self).jobs()),
            match step_error(old(self).jobs(), job_id, worker, e) {
                Some(err) => r == Err::<Status, Error>(err) && final(self).jobs() == old(self).jobs()
                    && final(self).queue() == old(self).queue(),
                None => {
                    let nj = old(self).jobs()[job_id as int].advanced(e, now);
                    &&& r == Ok::<Status, Error>(nj.status)
                    &&& final(self).jobs() == old(self).jobs().update(job_id as int, nj)
                    &&& final(self).queue() == if nj.status is Waiting {
                        old(self).queue().push(job_id)
                    } else {
                        old(self).queue()
                    }
                },
            },
    {
        let i = match self.index_of(job_id) {
            None => return Err(Error::NotFound),
            Some(i) => i,
        };
        let j = self.jobs[i];
        assert(j == self.jobs()[job_id as int]);
        if !j.status.held() || j.worker_id != Some(worker) {
            return Err(Error::NotClaimed);
        }
        if !Job::step_fits(j.status, e) {
            return Err(Error::InvalidTransition);
        }
        let nj = j.advance(e, now);
        self.set_job(i, nj);
        if matches!(nj.status, Status::Waiting) {
            self.enqueue(job_id);
        }
        Ok(nj.status)
    }
    /// The reaper: every stale job is treated as failed by a worker timeout,
    /// which requeues it with no holder while retries are left; the requeued
    /// ids go to the back of the queue in job order.
    pub fn reap(&mut self, now: u64, timeout: u64)
        requires
            old(self).wf(),
        ensures
            final(self).wf(),
            terminal_kept(old(self).jobs(), final(self).jobs()),
            stamps_kept(old(self).jobs(), final(self).jobs()),
            final(self).jobs().len() == old(self).jobs().len(),
            forall|i: int|
                0 <= i < old(self).jobs().len() ==> #[trigger] final(self).jobs()[i] == reaped(
                    old(self).jobs()[i],
                    now,
                    timeout,
                ),
            final(self).queue() == old(self).queue() + requeued_ids(old(self).jobs(), now, timeout),
    {
        let n = self.jobs.len();
        let ghost j0 = self.jobs@;
        let ghost q0 = self.queue@;
        let mut i: usize = 0;
        while i < n
            invariant
                self.wf(),
                j0 == old(self).jobs(),
                q0 == old(self).queue(),
                n == j0.len(),
                self.jobs().len() == n,
                i <= n,
                forall|k: int| 0 <= k < i ==> #[trigger] self.jobs()[k] == reaped(j0[k], now, timeout),
                forall|k: int| i <= k < n ==> #[trigger] self.jobs()[k] == j0[k],
                terminal_kept(j0, self.jobs()),
                stamps_kept(j0, self.jobs()),
                self.queue() == q0 + requeued_ids(j0.subrange(0, i as int), now, timeout),
            decreases n - i,
        {
            let j = self.jobs[i];
            assert(j == j0[i as int]);
            proof {
                lemma_requeued_ids_step(j0, i as int, now, timeout);
            }
            let stale = j.status.held() && j.updated_at < now && now - j.updated_at > timeout;
            if stale {
                let nj = j.fail(Failure::WorkerTimeout, now);
                let ghost before = self.jobs();
                self.set_job(i, nj);
                proof {
                    lemma_terminal_kept_across_calls(j0, before, self.jobs());
                    lemma_stamps_kept_across_calls(j0, before, self.jobs());
                }
                if matches!(nj.status, Status::Waiting) {
                    self.enqueue(j.id);
                }
                assert(self.queue() =~= q0 + requeued_ids(j0.subrange(0, i + 1), now, timeout));
            } else {
                assert(self.queue() =~= q0 + requeued_ids(j0.subrange(0, i + 1), now, timeout));
            }
            i = i + 1;
        }
        assert(j0.subrange(0, n as int) =~= j0);
    }

    /// Summaries of all jobs, in id order.
    pub fn get_status(&self) -> (r: Vec<JobSummary>)
        ensures
            r@.len() == self.jobs().len(),
            forall|i: int| 0 <= i < r@.len() ==> #[trigger] r@[i] == summary_of(self.jobs()[i]),
            self.wf() ==> forall|i: int| 0 <= i < r@.len() ==> summary_consistent(#[trigger] r@[i]),
    {
        let mut out: Vec<JobSummary> = Vec::new();
        let n = self.jobs.len();
        let mut i: usize = 0;
        while i < n
            invariant
                n == self.jobs().len(),
                i <= n,
                out@.len() == i,
                forall|k: int| 0 <= k < i ==> #[trigger] out@[k] == summary_of(self.jobs()[k]),
            decreases n - i,
        {
            out.push(Self::summarize(&self.jobs[i]));
            i = i + 1;
        }
        out
    }

    fn summarize(j: &Job) -> (r: JobSummary)
        ensures
            r == summary_of(*j),
    {
        JobSummary {
            id: j.id,
            status: j.status,
            worker_id: j.worker_id,
            failure: j.failure,
            retries: j.retries,
            created_at: j.created_at,
            updated_at: j.updated_at,
        }
    }

    /// Summary of one job; an id never issued is `NotFound`.
    pub fn get_status_by_id(&self, id: u64) -> (r: Result<JobSummary, Error>)
        ensures
            id < self.jobs().len() ==> r == Ok::<JobSummary, Error>(summary_of(self.jobs()[id as int])),
            id >= self.jobs().len() ==> r == Err::<JobSummary, Error>(Error::NotFound),
            self.wf() ==> (r matches Ok(s) ==> summary_consistent(s)),
    {
        match self.index_of(id) {
            Some(i) => Ok(Self::summarize(&self.jobs[i])),
            None => Err(Error::NotFound),
        }
    }
    /// The full record of one job, if its id was issued.
    pub fn job(&self, id: u64) -> (r: Option<Job>)
        ensures
            id < self.jobs().len() ==> r == Some(self.jobs()[id as int]),
            id >= self.jobs().len() ==> r is None,
    {
        match self.index_of(id) {
            Some(i) => Some(self.jobs[i]),
            None => None,
        }
    }
}

} // verus!
