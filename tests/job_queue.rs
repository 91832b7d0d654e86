use std::collections::HashMap;

use media_converter::error::Error;
use media_converter::job::{next_action, Failure, Status, StepEvent, WorkerAction, MAX_RETRIES};
use media_converter::media::Format;
use media_converter::storage::{original_dir, original_path, variant_path};
use media_converter::store::{Admission, JobStore};

const F: u128 = 0x67e5_5044_10b1_426f_9247_bb68_0e5f_e0c8;
const W1: u128 = 11;
const W2: u128 = 22;

fn status(store: &JobStore, id: u64) -> Status {
    store.get_status_by_id(id).unwrap().status
}

#[test]
fn variant_request_runs_to_done_and_stores_artifact() {
    let mut blobs: HashMap<String, Vec<u8>> = HashMap::new();
    blobs.insert(original_path("data", F, "f.png"), vec![1, 2, 3]);
    let path = variant_path("data", F, 100, 100, Format::Png);
    let mut store = JobStore::new();

    let r = store.request_variant(F, 100, 100, "png", blobs.contains_key(&path), 1);
    assert_eq!(r, Ok(Admission::Created(0)));
    assert_eq!(status(&store, 0), Status::Waiting);
    assert_eq!(store.queued(), 1);

    assert_eq!(store.claim_next(W1, 2), Some(0));
    let s = store.get_status_by_id(0).unwrap();
    assert_eq!((s.status, s.worker_id), (Status::Verifying, Some(W1)));
    assert_eq!(next_action(s.status), WorkerAction::Verify);
    assert_eq!(store.report(0, W1, StepEvent::SourceVerified, 3), Ok(Status::Converting));
    assert_eq!(next_action(Status::Converting), WorkerAction::Convert);
    assert_eq!(store.report(0, W1, StepEvent::Converted, 4), Ok(Status::Saving));
    assert_eq!(next_action(Status::Saving), WorkerAction::Save);
    blobs.insert(path.clone(), vec![9; 16]);
    assert_eq!(store.report(0, W1, StepEvent::Saved, 5), Ok(Status::Done));
    assert_eq!(next_action(Status::Done), WorkerAction::Release);

    let s = store.get_status_by_id(0).unwrap();
    assert_eq!(s.status, Status::Done);
    assert_eq!(s.worker_id, Some(W1));
    assert_eq!((s.created_at, s.updated_at), (1, 5));
    assert!(blobs.get(&path).map(|b| !b.is_empty()).unwrap_or(false));

    let again = store.request_variant(F, 100, 100, "png", blobs.contains_key(&path), 6);
    assert_eq!(again, Ok(Admission::Existing));
    assert_eq!(store.len(), 1);
}

#[test]
fn identical_requests_create_one_job() {
    let mut store = JobStore::new();
    assert_eq!(store.request_variant(F, 64, 64, "avif", false, 1), Ok(Admission::Created(0)));
    assert_eq!(store.request_variant(F, 64, 64, "AVIF", false, 1), Ok(Admission::Joined(0)));
    assert_eq!(store.len(), 1);
    assert_eq!(store.queued(), 1);
    assert_eq!(store.request_variant(F, 64, 32, "avif", false, 1), Ok(Admission::Created(1)));
    assert_eq!(store.request_variant(F, 64, 64, "png", false, 1), Ok(Admission::Created(2)));
    assert_eq!(store.len(), 3);
}

#[test]
fn in_flight_job_is_joined_and_finished_one_is_not() {
    let mut store = JobStore::new();
    store.request_variant(F, 8, 8, "png", false, 1).unwrap();
    assert_eq!(store.claim_next(W1, 2), Some(0));
    assert_eq!(store.request_variant(F, 8, 8, "png", false, 3), Ok(Admission::Joined(0)));
    store.report(0, W1, StepEvent::Failed(Failure::CorruptSource), 4).unwrap();
    assert_eq!(store.request_variant(F, 8, 8, "png", false, 5), Ok(Admission::Created(1)));
}

#[test]
fn unsupported_format_creates_no_job() {
    let mut store = JobStore::new();
    assert_eq!(store.request_variant(F, 100, 100, "gif", false, 1), Err(Error::MimeNotSupported));
    assert_eq!(store.request_variant(F, 100, 100, "gif", true, 1), Err(Error::MimeNotSupported));
    assert_eq!(store.len(), 0);
    assert_eq!(store.queued(), 0);
}

#[test]
fn missing_source_fails_after_verifying() {
    let blobs: HashMap<String, Vec<u8>> = HashMap::new();
    let mut store = JobStore::new();
    store.request_variant(F, 50, 50, "png", false, 1).unwrap();
    assert_eq!(store.claim_next(W1, 2), Some(0));
    assert_eq!(status(&store, 0), Status::Verifying);
    let dir = original_dir("data", F);
    let source_found = blobs.keys().any(|k| k.starts_with(&dir));
    assert!(!source_found);
    let r = store.report(0, W1, StepEvent::Failed(Failure::SourceNotFound), 3);
    assert_eq!(r, Ok(Status::Failed));
    let s = store.get_status_by_id(0).unwrap();
    assert_eq!(s.status, Status::Failed);
    assert_eq!(s.failure, Some(Failure::SourceNotFound));
    assert_eq!(s.worker_id, None);
    assert_eq!(store.queued(), 0);
}

#[test]
fn reaper_requeues_stuck_job_for_another_worker() {
    let mut store = JobStore::new();
    store.request_variant(F, 10, 10, "mp4", false, 0).unwrap();
    assert_eq!(store.claim_next(W1, 10), Some(0));
    store.report(0, W1, StepEvent::SourceVerified, 10).unwrap();
    assert_eq!(status(&store, 0), Status::Converting);

    store.reap(30, 30);
    assert_eq!(status(&store, 0), Status::Converting);

    store.reap(100, 30);
    let s = store.get_status_by_id(0).unwrap();
    assert_eq!((s.status, s.worker_id), (Status::Waiting, None));
    assert_eq!(s.failure, Some(Failure::WorkerTimeout));
    assert_eq!(s.retries, 1);

    assert_eq!(store.claim_next(W2, 101), Some(0));
    let s = store.get_status_by_id(0).unwrap();
    assert_eq!((s.status, s.worker_id), (Status::Verifying, Some(W2)));
    assert_eq!(store.report(0, W1, StepEvent::SourceVerified, 102), Err(Error::NotClaimed));
}

#[test]
fn transient_failures_retry_until_exhausted() {
    let mut store = JobStore::new();
    store.request_variant(F, 10, 10, "jpeg", false, 0).unwrap();
    for attempt in 0..MAX_RETRIES {
        assert_eq!(store.claim_next(W1, 1), Some(0));
        let r = store.report(0, W1, StepEvent::Failed(Failure::ConversionError), 2);
        assert_eq!(r, Ok(Status::Waiting));
        assert_eq!(store.get_status_by_id(0).unwrap().retries, attempt + 1);
    }
    assert_eq!(store.claim_next(W1, 3), Some(0));
    let r = store.report(0, W1, StepEvent::Failed(Failure::StorageWriteError), 4);
    assert_eq!(r, Ok(Status::Failed));
    assert_eq!(store.claim_next(W1, 5), None);
}

#[test]
fn terminal_jobs_do_not_move() {
    let mut store = JobStore::new();
    store.request_variant(F, 1, 1, "png", false, 0).unwrap();
    assert_eq!(store.claim_next(W1, 1), Some(0));
    store.report(0, W1, StepEvent::SourceVerified, 1).unwrap();
    store.report(0, W1, StepEvent::Converted, 1).unwrap();
    store.report(0, W1, StepEvent::Saved, 1).unwrap();
    let before = store.get_status_by_id(0).unwrap();
    assert_eq!(store.report(0, W1, StepEvent::Saved, 2), Err(Error::NotClaimed));
    assert_eq!(store.report(0, W1, StepEvent::Failed(Failure::ConversionError), 2), Err(Error::NotClaimed));
    assert!(!store.claim(0, W2, 3));
    store.reap(1_000_000, 1);
    assert_eq!(store.get_status_by_id(0).unwrap(), before);
}

#[test]
fn claim_is_exclusive() {
    let mut store = JobStore::new();
    store.request_variant(F, 2, 2, "png", false, 0).unwrap();
    assert!(store.claim(0, W1, 1));
    assert!(!store.claim(0, W2, 1));
    assert!(!store.claim(7, W2, 1));
    assert_eq!(store.claim_next(W2, 2), None);
    assert_eq!(store.queued(), 0);
}

#[test]
fn step_reports_are_checked() {
    let mut store = JobStore::new();
    store.request_variant(F, 3, 3, "png", false, 0).unwrap();
    assert_eq!(store.report(5, W1, StepEvent::Saved, 1), Err(Error::NotFound));
    assert_eq!(store.report(0, W1, StepEvent::SourceVerified, 1), Err(Error::NotClaimed));
    store.claim_next(W1, 1).unwrap();
    assert_eq!(store.report(0, W1, StepEvent::Saved, 1), Err(Error::InvalidTransition));
    assert_eq!(store.report(0, W2, StepEvent::SourceVerified, 1), Err(Error::NotClaimed));
    assert_eq!(status(&store, 0), Status::Verifying);
}

#[test]
fn status_queries() {
    let mut store = JobStore::new();
    assert_eq!(store.get_status_by_id(0), Err(Error::NotFound));
    assert!(store.get_status().is_empty());
    store.request_variant(F, 4, 4, "png", false, 7).unwrap();
    store.request_variant(F, 5, 5, "png", false, 8).unwrap();
    store.claim_next(W1, 9).unwrap();
    let all = store.get_status();
    assert_eq!(all.len(), 2);
    assert_eq!((all[0].id, all[0].status), (0, Status::Verifying));
    assert_eq!((all[1].id, all[1].status, all[1].created_at), (1, Status::Waiting, 8));
    assert_eq!(store.get_status_by_id(1).unwrap(), all[1]);
    assert_eq!(store.get_status_by_id(2), Err(Error::NotFound));
}

#[test]
fn job_record_lookup() {
    let mut store = JobStore::new();
    assert!(store.job(0).is_none());
    store.request_variant(F, 12, 34, "vp8", false, 3).unwrap();
    let j = store.job(0).unwrap();
    assert_eq!((j.id, j.file_id, j.size.width, j.size.height), (0, F, 12, 34));
    assert_eq!((j.format, j.status, j.worker_id), (Format::Vp8, Status::Waiting, None));
}

#[test]
fn timestamps_never_move_backwards() {
    let mut store = JobStore::new();
    store.request_variant(F, 9, 9, "png", false, 100).unwrap();
    assert_eq!(store.claim_next(W1, 40), Some(0));
    let s = store.get_status_by_id(0).unwrap();
    assert_eq!((s.created_at, s.updated_at), (100, 100));
    store.report(0, W1, StepEvent::SourceVerified, 150).unwrap();
    assert_eq!(store.get_status_by_id(0).unwrap().updated_at, 150);
    store.report(0, W1, StepEvent::Failed(Failure::StorageReadError), 120).unwrap();
    let s = store.get_status_by_id(0).unwrap();
    assert_eq!((s.status, s.created_at, s.updated_at), (Status::Waiting, 100, 150));
    for s in store.get_status() {
        assert!(s.created_at <= s.updated_at);
    }
}

#[test]
fn reaped_job_is_queued_again() {
    let mut store = JobStore::new();
    store.request_variant(F, 6, 6, "png", false, 0).unwrap();
    store.request_variant(F, 7, 7, "png", false, 0).unwrap();
    assert_eq!(store.claim_next(W1, 5), Some(0));
    assert_eq!(store.queued(), 1);
    store.reap(100, 10);
    assert_eq!(store.queued(), 2);
    assert_eq!(store.claim_next(W2, 101), Some(1));
    assert_eq!(store.claim_next(W2, 102), Some(0));
}
