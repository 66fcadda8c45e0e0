use kip::copier::{map_io_error, CopyError, CopyPipeline, IoFailure};
use kip::hashing::ContentHasher;
use kip::models::{ErrorKind, IntentKind, IntentStatus, JobStatus};
use kip::scanner::{walk_source, RootKind, WalkItem};
use kip::store::JobStore;

/// A store holding one intent from `/src` to `/dst`, scanned over the given
/// files. Returns the store and the intent id.
fn scanned(files: &[(&str, u64)]) -> (JobStore, u64) {
    let mut store = JobStore::new();
    let src = store.add_location("/src".to_string(), None, 1).unwrap();
    let dst = store.add_location("/dst".to_string(), None, 1).unwrap();
    let intent = store.add_intent(Some("photos".to_string()), src, vec![dst], IntentKind::OneShot, 0, 1).unwrap();
    let root = store.begin_scan(intent, 2).ok().unwrap();
    let mut items = vec![WalkItem::Directory];
    for (p, n) in files {
        items.push(WalkItem::File { relative_path: p.to_string(), size: *n, modified: 0 });
    }
    let (entries, skipped) = walk_source(&root, RootKind::Directory, &items).ok().unwrap();
    store.finish_scan(intent, &root, &entries, skipped, 3).ok().unwrap();
    (store, intent)
}

/// Copies `data` for job `id` the way a host does: claim, stream, verify the
/// landed bytes, record.
fn copy_bytes(store: &mut JobStore, id: u64, data: &[u8], landed: &[u8]) -> Result<u64, CopyError> {
    let task = store.claim_job(id, 10).ok().unwrap().unwrap();
    assert_eq!(task.job_id, id);
    let mut pipeline = CopyPipeline::new();
    for chunk in data.chunks(4) {
        if let Some(n) = pipeline.absorb(chunk) {
            store.update_progress(id, n);
        }
    }
    let mut dest = ContentHasher::new();
    dest.update(landed);
    let outcome = pipeline.finish(dest.finalize_hex());
    store.finish_copy(id, outcome, 11).map(|c| c.bytes_copied)
}

#[test]
fn end_to_end_single_file() {
    let (mut store, intent) = scanned(&[("hello.txt", 11)]);
    assert_eq!(store.begin_run(intent).ok().unwrap(), 0);
    let pending = store.pending_jobs(intent);
    assert_eq!(pending.len(), 1);
    for id in pending {
        assert_eq!(copy_bytes(&mut store, id, b"hello world", b"hello world").ok().unwrap(), 11);
    }
    assert!(store.pending_jobs(intent).is_empty());
    let result = store.finish_run(intent, 12).ok().unwrap();
    assert_eq!(result.completed, 1);
    assert_eq!(result.needs_review, 0);
    assert_eq!(result.failed, 0);

    assert_eq!(store.jobs.len(), 1);
    let job = &store.jobs[0];
    assert_eq!(job.status, JobStatus::Complete);
    assert_eq!(job.bytes_transferred, 11);
    let (s, d) = (job.source_hash.clone().unwrap(), job.dest_hash.clone().unwrap());
    assert!(!s.is_empty());
    assert_eq!(s, d);
    assert_eq!(s, blake3::hash(b"hello world").to_hex().to_string());
    assert_eq!(job.completed_at, Some(11));
    let i = store.intent(intent).unwrap();
    assert_eq!(i.status, IntentStatus::Complete);
    assert_eq!(i.completed_files, 1);
}

#[test]
fn retryable_failures_requeue_until_attempts_run_out() {
    let (mut store, intent) = scanned(&[("a.bin", 3)]);
    let id = store.pending_jobs(intent)[0];
    for attempt in 1..=3u64 {
        store.claim_job(id, 20).ok().unwrap().unwrap();
        assert_eq!(store.job(id).unwrap().status, JobStatus::Transferring);
        let err = map_io_error(IoFailure::Other, "/src/a.bin", "reset");
        assert!(store.finish_copy(id, Err(err), 21).is_err());
        let job = store.job(id).unwrap();
        assert_eq!(job.attempts, attempt);
        assert!(job.attempts <= job.max_attempts);
        assert_eq!(job.error_kind, Some(ErrorKind::IoError));
        assert_eq!(job.last_error.as_deref(), Some("I/O error: /src/a.bin: reset"));
        if attempt < 3 {
            assert_eq!(job.status, JobStatus::Pending);
            assert!(store.reviews.is_empty());
        } else {
            assert_eq!(job.status, JobStatus::NeedsReview);
        }
    }
    assert_eq!(store.reviews.len(), 1);
    let r = &store.reviews[0];
    assert_eq!(r.job, id);
    assert_eq!(r.intent, intent);
    assert_eq!(r.error_kind, ErrorKind::IoError);
    assert_eq!(r.options, vec!["retry", "skip"]);
    assert!(r.resolution.is_none());
    // A job waiting for review is not claimed again.
    assert!(store.claim_job(id, 30).ok().unwrap().is_none());
    assert!(store.pending_jobs(intent).is_empty());
    let result = store.finish_run(intent, 31).ok().unwrap();
    assert_eq!(result.needs_review, 1);
    assert_eq!(store.intent(intent).unwrap().status, IntentStatus::NeedsReview);
}

#[test]
fn non_retryable_failure_goes_to_review_at_once() {
    let (mut store, intent) = scanned(&[("gone.txt", 1)]);
    let id = store.pending_jobs(intent)[0];
    store.claim_job(id, 5).ok().unwrap().unwrap();
    let err = map_io_error(IoFailure::NotFound, "/src/gone.txt", "");
    store.finish_copy(id, Err(err), 6).err().unwrap();
    let job = store.job(id).unwrap();
    assert_eq!(job.status, JobStatus::NeedsReview);
    assert_eq!(job.attempts, 1);
    assert_eq!(store.reviews.len(), 1);
    assert_eq!(store.reviews[0].error_kind, ErrorKind::SourceMissing);
    assert_eq!(store.reviews[0].options, vec!["skip", "rescan"]);
    assert_eq!(store.reviews[0].error_message, "source file not found: /src/gone.txt");
}

#[test]
fn mismatched_copy_is_escalated_with_accept_option() {
    let (mut store, intent) = scanned(&[("f.txt", 5)]);
    let id = store.pending_jobs(intent)[0];
    assert!(matches!(copy_bytes(&mut store, id, b"hello", b"jello"), Err(CopyError::HashMismatch { .. })));
    let job = store.job(id).unwrap();
    assert_eq!(job.status, JobStatus::NeedsReview);
    assert!(job.source_hash.is_none());
    assert_eq!(store.reviews[0].options, vec!["retry", "skip", "accept"]);
}

#[test]
fn crash_recovery_resets_transferring_jobs() {
    let (mut store, intent) = scanned(&[("a", 8), ("b", 8), ("c", 8)]);
    let ids = store.pending_jobs(intent);
    // Two copies start and the process dies mid-way.
    store.claim_job(ids[0], 1).ok().unwrap().unwrap();
    store.update_progress(ids[0], 4);
    store.claim_job(ids[1], 1).ok().unwrap().unwrap();
    assert_eq!(store.pending_jobs(intent), vec![ids[2]]);

    assert_eq!(store.begin_run(intent).ok().unwrap(), 2);
    for id in &ids {
        let job = store.job(*id).unwrap();
        assert_eq!(job.status, JobStatus::Pending);
        assert_eq!(job.bytes_transferred, 0);
    }
    assert_eq!(store.pending_jobs(intent), ids);
}

#[test]
fn rerunning_a_settled_intent_changes_no_job() {
    let (mut store, intent) = scanned(&[("ok.txt", 2), ("bad.txt", 2)]);
    let ids = store.pending_jobs(intent);
    store.begin_run(intent).ok().unwrap();
    copy_bytes(&mut store, ids[0], b"ok", b"ok").ok().unwrap();
    store.claim_job(ids[1], 3).ok().unwrap().unwrap();
    store.finish_copy(ids[1], Err(CopyError::PermissionDenied("/dst/bad.txt".into())), 4).err().unwrap();
    let first = store.finish_run(intent, 5).ok().unwrap();
    assert_eq!((first.completed, first.needs_review), (1, 1));
    let before: Vec<(u64, JobStatus, u64)> = store.jobs.iter().map(|j| (j.id, j.status, j.attempts)).collect();

    assert_eq!(store.begin_run(intent).ok().unwrap(), 0);
    assert!(store.pending_jobs(intent).is_empty());
    let second = store.finish_run(intent, 6).ok().unwrap();
    let after: Vec<(u64, JobStatus, u64)> = store.jobs.iter().map(|j| (j.id, j.status, j.attempts)).collect();
    assert_eq!(before, after);
    assert_eq!((second.completed, second.needs_review, second.failed), (1, 1, 0));
    assert_eq!(store.intent(intent).unwrap().status, IntentStatus::NeedsReview);
    assert_eq!(store.reviews.len(), 1);
}

#[test]
fn unknown_ids_are_reported() {
    let mut store = JobStore::new();
    assert!(matches!(store.claim_job(9, 1), Err(CopyError::JobNotFound(9))));
    assert!(store.begin_run(9).is_err());
    assert!(store.finish_run(9, 1).is_err());
    assert!(!store.update_progress(9, 1));
}
