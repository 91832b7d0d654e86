use vstd::prelude::*;

use crate::media::Format;

verus! {

/// How many times a transient failure sends a job back to the queue before
/// the job fails for good.
pub const MAX_RETRIES: u32 = 3;

/// Lifecycle state of a conversion job.
#[derive(Debug, Clone, Copy, PartialEq, Eq, Structural)]
pub enum Status {
    /// Created, not yet claimed by a worker.
    Waiting,
    /// Claimed; the worker confirms the source and the request are still valid.
    Verifying,
    /// The converter is transforming the bytes.
    Converting,
    /// The output is being written to its storage address.
    Saving,
    /// Terminal success.
    Done,
    /// Terminal failure.
    Failed,
}

impl Status {
    pub open spec fn is_terminal(self) -> bool {
        self is Done || self is Failed
    }

    /// A worker holds the job in this state.
    pub open spec fn is_held(self) -> bool {
        self is Verifying || self is Converting || self is Saving
    }

    pub fn terminal(&self) -> (r: bool)
        ensures
            r == self.is_terminal(),
    {
        match self {
            Status::Done | Status::Failed => true,
            _ => false,
        }
    }

    pub fn held(&self) -> (r: bool)
        ensures
            r == self.is_held(),
    {
        match self {
            Status::Verifying | Status::Converting | Status::Saving => true,
            _ => false,
        }
    }
}

/// Why a step of a job failed.
#[derive(Debug, Clone, Copy, PartialEq, Eq, Structural)]
pub enum Failure {
    /// The source file does not exist in the blob store.
    SourceNotFound,
    /// The source or the target format is outside the allow-list.
    MimeNotSupported,
    /// The source bytes cannot be decoded.
    CorruptSource,
    /// The converter failed on this attempt.
    ConversionError,
    /// Reading the source failed on this attempt.
    StorageReadError,
    /// Writing the output failed on this attempt.
    StorageWriteError,
    /// The holding worker stopped reporting progress.
    WorkerTimeout,
}

impl Failure {
    /// A transient failure may succeed when the job is tried again.
    pub open spec fn is_transient(self) -> bool {
        self is ConversionError || self is StorageReadError || self is StorageWriteError
            || self is WorkerTimeout
    }

    pub fn transient(&self) -> (r: bool)
        ensures
            r == self.is_transient(),
    {
        match self {
            Failure::ConversionError | Failure::StorageReadError | Failure::StorageWriteError
            | Failure::WorkerTimeout => true,
            _ => false,
        }
    }
}

/// A target size in pixels.
#[derive(Debug, Clone, Copy, PartialEq, Eq, Structural)]
pub struct Size {
    pub width: u32,
    pub height: u32,
}

/// The dedup key: one requestable variant of one source file.
#[derive(Debug, Clone, Copy, PartialEq, Eq, Structural)]
pub struct VariantKey {
    pub file_id: u128,
    pub size: Size,
    pub format: Format,
}

/// A unit of conversion work.
#[derive(Debug, Clone, Copy, PartialEq, Eq, Structural)]
pub struct Job {
    pub id: u64,
    pub file_id: u128,
    pub size: Size,
    pub format: Format,
    pub status: Status,
    pub worker_id: Option<u128>,
    pub failure: Option<Failure>,
    pub retries: u32,
    pub created_at: u64,
    pub updated_at: u64,
}

/// What a worker reports after carrying out the step its job is in.
#[derive(Debug, Clone, Copy, PartialEq, Eq, Structural)]
pub enum StepEvent {
    /// The source is readable and the request is still valid.
    SourceVerified,
    /// The converter produced the output bytes.
    Converted,
    /// The output was written to storage.
    Saved,
    /// The step failed.
    Failed(Failure),
}

/// What a worker does next for a job in a given state.
#[derive(Debug, Clone, Copy, PartialEq, Eq, Structural)]
pub enum WorkerAction {
    /// Check that the source exists and the request is valid.
    Verify,
    /// Run the converter.
    Convert,
    /// Write the output to its storage address.
    Save,
    /// Nothing is left for this worker to do on the job.
    Release,
}

pub open spec fn action_of(s: Status) -> WorkerAction {
    match s {
        Status::Verifying => WorkerAction::Verify,
        Status::Converting => WorkerAction::Convert,
        Status::Saving => WorkerAction::Save,
        _ => WorkerAction::Release,
    }
}

/// The action a worker takes for a job in state `s`.
pub fn next_action(s: Status) -> (r: WorkerAction)
    ensures
        r == action_of(s),
{
    match s {
        Status::Verifying => WorkerAction::Verify,
        Status::Converting => WorkerAction::Convert,
        Status::Saving => WorkerAction::Save,
        _ => WorkerAction::Release,
    }
}

impl Job {
    pub open spec fn key(self) -> VariantKey {
        VariantKey { file_id: self.file_id, size: self.size, format: self.format }
    }

    /// Still pending or in flight.
    pub open spec fn is_active(self) -> bool {
        !self.status.is_terminal()
    }

    /// The record's own invariant: who may hold it in which state.
    pub open spec fn wf(self) -> bool {
        &&& self.status is Waiting ==> self.worker_id is None
        &&& self.status.is_held() ==> self.worker_id is Some
        &&& self.status is Failed ==> self.worker_id is None && self.failure is Some
        &&& self.retries <= MAX_RETRIES
        &&& self.created_at <= self.updated_at
    }

    /// The time a change is recorded at: the later of the last update and
    /// `now`, so that `updated_at` never moves backwards.
    pub open spec fn stamp(self, now: u64) -> u64 {
        if now > self.updated_at {
            now
        } else {
            self.updated_at
        }
    }

    pub fn stamped(&self, now: u64) -> (r: u64)
        ensures
            r == self.stamp(now),
            r >= self.updated_at,
    {
        if now > self.updated_at {
            now
        } else {
            self.updated_at
        }
    }

    pub open spec fn created(id: u64, key: VariantKey, now: u64) -> Job {
        Job {
            id,
            file_id: key.file_id,
            size: key.size,
            format: key.format,
            status: Status::Waiting,
            worker_id: None,
            failure: None,
            retries: 0,
            created_at: now,
            updated_at: now,
        }
    }

    pub open spec fn claimed(self, worker: u128, now: u64) -> Job {
        Job { status: Status::Verifying, worker_id: Some(worker), updated_at: self.stamp(now), ..self }
    }

    /// The retry policy: a transient failure with retries left requeues the job
    /// with no holder; any other failure ends it.
    pub open spec fn failed_with(self, f: Failure, now: u64) -> Job {
        if f.is_transient() && self.retries < MAX_RETRIES {
            Job {
                status: Status::Waiting,
                worker_id: None,
                failure: Some(f),
                retries: (self.retries + 1) as u32,
                updated_at: self.stamp(now),
                ..self
            }
        } else {
            Job {
                status: Status::Failed,
                worker_id: None,
                failure: Some(f),
                updated_at: self.stamp(now),
                ..self
            }
        }
    }

    /// Whether `e` reports the step that a job in state `s` is in.
    pub open spec fn fits(s: Status, e: StepEvent) -> bool {
        match e {
            StepEvent::SourceVerified => s is Verifying,
            StepEvent::Converted => s is Converting,
            StepEvent::Saved => s is Saving,
            StepEvent::Failed(_) => s.is_held(),
        }
    }

    /// The job after a step that fits its state.
    pub open spec fn advanced(self, e: StepEvent, now: u64) -> Job {
        match e {
            StepEvent::SourceVerified => Job {
                status: Status::Converting,
                updated_at: self.stamp(now),
                ..self
            },
            StepEvent::Converted => Job { status: Status::Saving, updated_at: self.stamp(now), ..self },
            StepEvent::Saved => Job { status: Status::Done, updated_at: self.stamp(now), ..self },
            StepEvent::Failed(f) => self.failed_with(f, now),
        }
    }

    pub fn step_fits(s: Status, e: StepEvent) -> (r: bool)
        ensures
            r == Job::fits(s, e),
    {
        match e {
            StepEvent::SourceVerified => matches!(s, Status::Verifying),
            StepEvent::Converted => matches!(s, Status::Converting),
            StepEvent::Saved => matches!(s, Status::Saving),
            StepEvent::Failed(_) => s.held(),
        }
    }

    /// Applies the retry policy to a failed step.
    pub fn fail(&self, f: Failure, now: u64) -> (r: Job)
        requires
            self.wf(),
        ensures
            r == self.failed_with(f, now),
            r.wf(),
            r.id == self.id && r.key() == self.key(),
            r.created_at == self.created_at && r.updated_at >= self.updated_at,
    {
        let t = self.stamped(now);
        if f.transient() && self.retries < MAX_RETRIES {
            Job {
                status: Status::Waiting,
                worker_id: None,
                failure: Some(f),
                retries: self.retries + 1,
                updated_at: t,
                ..*self
            }
        } else {
            Job { status: Status::Failed, worker_id: None, failure: Some(f), updated_at: t, ..*self }
        }
    }

    /// A waiting job taken by `worker`.
    pub fn claim_by(&self, worker: u128, now: u64) -> (r: Job)
        requires
            self.wf(),
            self.status is Waiting,
        ensures
            r == self.claimed(worker, now),
            r.wf(),
            r.id == self.id && r.key() == self.key(),
            r.created_at == self.created_at && r.updated_at >= self.updated_at,
    {
        let t = self.stamped(now);
        Job { status: Status::Verifying, worker_id: Some(worker), updated_at: t, ..*self }
    }

    /// Applies a step that fits the job's state.
    pub fn advance(&self, e: StepEvent, now: u64) -> (r: Job)
        requires
            self.wf(),
            Job::fits(self.status, e),
        ensures
            r == self.advanced(e, now),
            r.wf(),
            r.id == self.id && r.key() == self.key(),
            r.created_at == self.created_at && r.updated_at >= self.updated_at,
    {
        let t = self.stamped(now);
        match e {
            StepEvent::SourceVerified => Job { status: Status::Converting, updated_at: t, ..*self },
            StepEvent::Converted => Job { status: Status::Saving, updated_at: t, ..*self },
            StepEvent::Saved => Job { status: Status::Done, updated_at: t, ..*self },
            StepEvent::Failed(f) => self.fail(f, now),
        }
    }
}

/// A step can only be reported for a job that a worker holds, so a job in a
/// terminal state has no transition out of it.
pub proof fn lemma_terminal_has_no_step(j: Job, e: StepEvent)
    requires
        j.status.is_terminal(),
    ensures
        !Job::fits(j.status, e),
{
}

} // verus!
