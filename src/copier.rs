//! Copier: failure taxonomy, retry and escalation rules, and the streaming
//! copy pipeline that hashes every chunk it writes and verifies the result
//! against an independent hash of what landed on disk.
use vstd::prelude::*;

use crate::hashing::{blake3_hex, ContentHasher, DIGEST_HEX_LEN};
use crate::models::{ErrorKind, JobStatus, ReviewItem, TransferJob};
use crate::store::{
    has_job, job_budget_ok, job_pos, jobs_ok, lemma_reviews_ok_kept, open_review_ok, JobStore,
};
use crate::text::{decimal, decimal_string, prefixed};

verus! {

/// A progress update is due after this many chunks.
pub const PROGRESS_INTERVAL: usize = 4;

/// Why a copy failed.
#[derive(Debug)]
pub enum CopyError {
    JobNotFound(u64),
    SourceNotFound(String),
    PermissionDenied(String),
    DiskFull(String),
    IoError(String),
    HashMismatch { source_hash: String, dest_hash: String },
    DbError(String),
}

/// The human-readable message of a copy error.
pub open spec fn copy_error_message(e: CopyError) -> Seq<char> {
    match e {
        CopyError::JobNotFound(id) => "job not found: "@ + decimal(id as nat),
        CopyError::SourceNotFound(s) => "source file not found: "@ + s@,
        CopyError::PermissionDenied(s) => "permission denied: "@ + s@,
        CopyError::DiskFull(s) => "disk full: "@ + s@,
        CopyError::IoError(s) => "I/O error: "@ + s@,
        CopyError::HashMismatch { source_hash, dest_hash } => "hash mismatch: source="@
            + source_hash@ + ", dest="@ + dest_hash@,
        CopyError::DbError(s) => "database error: "@ + s@,
    }
}

/// The review kind a copy error is filed under.
pub open spec fn error_kind_of(e: CopyError) -> ErrorKind {
    match e {
        CopyError::SourceNotFound(_) => ErrorKind::SourceMissing,
        CopyError::PermissionDenied(_) => ErrorKind::PermissionDenied,
        CopyError::DiskFull(_) => ErrorKind::DiskFull,
        CopyError::HashMismatch { .. } => ErrorKind::HashMismatch,
        CopyError::IoError(_) => ErrorKind::IoError,
        CopyError::JobNotFound(_) => ErrorKind::Internal,
        CopyError::DbError(_) => ErrorKind::Internal,
    }
}

impl CopyError {
    /// Only transient I/O failures are retried automatically.
    pub fn is_retryable(&self) -> (r: bool)
        ensures
            r == (*self is IoError),
    {
        match self {
            CopyError::IoError(_) => true,
            _ => false,
        }
    }

    /// The error's message, as shown to the user.
    pub fn message(&self) -> (r: String)
        ensures
            r@ == copy_error_message(*self),
    {
        match self {
            CopyError::JobNotFound(id) => prefixed("job not found: ", decimal_string(*id).as_str()),
            CopyError::SourceNotFound(s) => prefixed("source file not found: ", s.as_str()),
            CopyError::PermissionDenied(s) => prefixed("permission denied: ", s.as_str()),
            CopyError::DiskFull(s) => prefixed("disk full: ", s.as_str()),
            CopyError::IoError(s) => prefixed("I/O error: ", s.as_str()),
            CopyError::HashMismatch { source_hash, dest_hash } => {
                let mut r = prefixed("hash mismatch: source=", source_hash.as_str());
                r.append(", dest=");
                r.append(dest_hash.as_str());
                r
            },
            CopyError::DbError(s) => prefixed("database error: ", s.as_str()),
        }
    }
}

/// Category of a failed filesystem operation.
#[derive(Debug, Clone, Copy, PartialEq, Eq, Structural)]
pub enum IoFailure {
    NotFound,
    PermissionDenied,
    StorageFull,
    Other,
}

/// `e` is what a failure of kind `kind` on `path` maps to.
pub open spec fn io_error_matches(e: CopyError, kind: IoFailure, path: Seq<char>, detail: Seq<char>) -> bool {
    match kind {
        IoFailure::NotFound => e is SourceNotFound && e->SourceNotFound_0@ == path,
        IoFailure::PermissionDenied => e is PermissionDenied && e->PermissionDenied_0@ == path,
        IoFailure::StorageFull => e is DiskFull && e->DiskFull_0@ == path,
        IoFailure::Other => e is IoError && e->IoError_0@ == path + ": "@ + detail,
    }
}

/// Turns a failed filesystem operation on `path` into a copy error; `detail`
/// describes an uncategorised failure.
pub fn map_io_error(kind: IoFailure, path: &str, detail: &str) -> (r: CopyError)
    ensures
        io_error_matches(r, kind, path@, detail@),
{
    match kind {
        IoFailure::NotFound => CopyError::SourceNotFound(String::from_str(path)),
        IoFailure::PermissionDenied => CopyError::PermissionDenied(String::from_str(path)),
        IoFailure::StorageFull => CopyError::DiskFull(String::from_str(path)),
        IoFailure::Other => {
            let mut m = prefixed(path, ": ");
            m.append(detail);
            CopyError::IoError(m)
        },
    }
}

/// Filesystem failures are classified as their kind says: not found becomes
/// a missing source, permission denied and storage full keep their names,
/// everything else is an I/O error; and only the I/O error is retryable.
pub proof fn lemma_io_classification(e: CopyError, kind: IoFailure, path: Seq<char>, detail: Seq<char>)
    requires
        io_error_matches(e, kind, path, detail),
    ensures
        kind == IoFailure::NotFound ==> error_kind_of(e) == ErrorKind::SourceMissing,
        kind == IoFailure::PermissionDenied ==> error_kind_of(e) == ErrorKind::PermissionDenied,
        kind == IoFailure::StorageFull ==> error_kind_of(e) == ErrorKind::DiskFull,
        kind == IoFailure::Other ==> error_kind_of(e) == ErrorKind::IoError,
        (e is IoError) <==> kind == IoFailure::Other,
{
}

/// The review kind of a copy error.
pub fn classify_error(err: &CopyError) -> (r: ErrorKind)
    ensures
        r == error_kind_of(*err),
{
    match err {
        CopyError::SourceNotFound(_) => ErrorKind::SourceMissing,
        CopyError::PermissionDenied(_) => ErrorKind::PermissionDenied,
        CopyError::DiskFull(_) => ErrorKind::DiskFull,
        CopyError::HashMismatch { .. } => ErrorKind::HashMismatch,
        CopyError::IoError(_) => ErrorKind::IoError,
        CopyError::JobNotFound(_) => ErrorKind::Internal,
        CopyError::DbError(_) => ErrorKind::Internal,
    }
}

/// The resolutions offered to the user for each kind of failure, in order.
pub open spec fn resolution_spec(kind: ErrorKind) -> Seq<Seq<char>> {
    match kind {
        ErrorKind::SourceMissing => seq!["skip"@, "rescan"@],
        ErrorKind::PermissionDenied => seq!["retry"@, "skip"@],
        ErrorKind::DiskFull => seq!["retry"@, "skip"@],
        ErrorKind::IoError => seq!["retry"@, "skip"@],
        ErrorKind::HashMismatch => seq!["retry"@, "skip"@, "accept"@],
        _ => seq!["skip"@],
    }
}

/// The resolution options of a review item for a failure of kind `kind`.
pub fn resolution_options(kind: ErrorKind) -> (r: Vec<String>)
    ensures
        r@.map_values(|s: String| s@) == resolution_spec(kind),
{
    let mut r: Vec<String> = Vec::new();
    match kind {
        ErrorKind::SourceMissing => {
            r.push(String::from_str("skip"));
            r.push(String::from_str("rescan"));
        },
        ErrorKind::PermissionDenied | ErrorKind::DiskFull | ErrorKind::IoError => {
            r.push(String::from_str("retry"));
            r.push(String::from_str("skip"));
        },
        ErrorKind::HashMismatch => {
            r.push(String::from_str("retry"));
            r.push(String::from_str("skip"));
            r.push(String::from_str("accept"));
        },
        _ => {
            r.push(String::from_str("skip"));
        },
    }
    assert(r@.map_values(|s: String| s@) =~= resolution_spec(kind));
    r
}

/// Outcome of a copy whose destination hash matched the source hash.
#[derive(Debug)]
pub struct CopyResult {
    pub bytes_copied: u64,
    pub source_hash: String,
    pub dest_hash: String,
    pub verified: bool,
}

/// Chunks counted towards the next progress update after a chunk of `len`
/// bytes, from `since` counted before.
pub open spec fn since_after(since: nat, len: nat) -> nat {
    if len == 0 {
        since
    } else if since + 1 >= PROGRESS_INTERVAL {
        0
    } else {
        since + 1
    }
}

/// The progress report due after a chunk of `len` bytes, `streamed` bytes in
/// all, `since` chunks counted before it.
pub open spec fn progress_due(since: nat, len: nat, streamed: nat) -> Option<u64> {
    if len > 0 && since + 1 >= PROGRESS_INTERVAL {
        Some(streamed as u64)
    } else {
        None
    }
}

/// `c` reports a verified copy of `bytes` bytes with the given digests.
pub open spec fn verified_result(c: CopyResult, source: Seq<char>, dest: Seq<char>, bytes: nat) -> bool {
    &&& c.source_hash@ == source
    &&& c.dest_hash@ == dest
    &&& c.source_hash@ == c.dest_hash@
    &&& c.bytes_copied == bytes
    &&& c.verified
}

/// `e` is a hash mismatch between the given digests.
pub open spec fn mismatch_error(e: CopyError, source: Seq<char>, dest: Seq<char>) -> bool {
    match e {
        CopyError::HashMismatch { source_hash, dest_hash } => source_hash@ == source && dest_hash@ == dest,
        _ => false,
    }
}

/// State of one copy in progress: the source bytes streamed so far go through
/// a content hasher and are counted; a progress update falls due every
/// `PROGRESS_INTERVAL` non-empty chunks.
pub struct CopyPipeline {
    hasher: ContentHasher,
    bytes_copied: u64,
    chunks_since_progress: usize,
}

impl CopyPipeline {
    /// The source bytes streamed so far.
    pub closed spec fn streamed(&self) -> Seq<u8> {
        self.hasher@
    }

    /// Non-empty chunks streamed since the last progress update fell due.
    pub closed spec fn since_progress(&self) -> nat {
        self.chunks_since_progress as nat
    }

    pub closed spec fn wf(&self) -> bool {
        &&& self.bytes_copied as nat == self.hasher@.len()
        &&& self.chunks_since_progress < PROGRESS_INTERVAL
    }

    /// A pipeline that has streamed nothing.
    pub fn new() -> (r: CopyPipeline)
        ensures
            r.wf(),
            r.streamed() == Seq::<u8>::empty(),
            r.since_progress() == 0,
    {
        CopyPipeline { hasher: ContentHasher::new(), bytes_copied: 0, chunks_since_progress: 0 }
    }

    /// Number of source bytes streamed so far.
    pub fn bytes_copied(&self) -> (r: u64)
        requires
            self.wf(),
        ensures
            r == self.streamed().len(),
    {
        self.bytes_copied
    }

    /// Streams one chunk read from the source (after it was written to the
    /// destination). Returns the byte count to report when a progress update
    /// is due. Reporting is best effort: a failed report must not fail the
    /// copy.
    pub fn absorb(&mut self, chunk: &[u8]) -> (progress: Option<u64>)
        requires
            old(self).wf(),
            old(self).streamed().len() + chunk@.len() <= u64::MAX,
        ensures
            final(self).wf(),
            final(self).streamed() == old(self).streamed() + chunk@,
            progress == progress_due(old(self).since_progress(), chunk@.len(), final(self).streamed().len()),
            final(self).since_progress() == since_after(old(self).since_progress(), chunk@.len()),
    {
        if chunk.len() == 0 {
            return None;
        }
        self.hasher.update(chunk);
        self.bytes_copied = self.bytes_copied + chunk.len() as u64;
        self.chunks_since_progress = self.chunks_since_progress + 1;
        if self.chunks_since_progress >= PROGRESS_INTERVAL {
            self.chunks_since_progress = 0;
            Some(self.bytes_copied)
        } else {
            None
        }
    }

    /// Hex digest of the source bytes streamed so far.
    pub fn source_hash(&self) -> (r: String)
        ensures
            r@ == blake3_hex(self.streamed()),
            r@.len() == DIGEST_HEX_LEN,
    {
        self.hasher.finalize_hex()
    }

    /// Compares the source digest with `dest_hash`, the digest of the
    /// destination file computed by re-reading it. Equal digests are success;
    /// different ones are a hash mismatch.
    pub fn finish(&self, dest_hash: String) -> (r: Result<CopyResult, CopyError>)
        requires
            self.wf(),
        ensures
            (r is Ok) <==> blake3_hex(self.streamed()) == dest_hash@,
            r is Ok ==> verified_result(r->Ok_0, blake3_hex(self.streamed()), dest_hash@, self.streamed().len()),
            r is Err ==> mismatch_error(r->Err_0, blake3_hex(self.streamed()), dest_hash@),
    {
        let source_hash = self.hasher.finalize_hex();
        if source_hash == dest_hash {
            Ok(CopyResult { bytes_copied: self.bytes_copied, source_hash, dest_hash, verified: true })
        } else {
            Err(CopyError::HashMismatch { source_hash, dest_hash })
        }
    }
}

/// What the copier needs of a claimed job.
#[derive(Debug)]
pub struct CopyTask {
    pub job_id: u64,
    pub intent: u64,
    pub source_path: String,
    pub dest_path: String,
    pub attempts: u64,
    pub max_attempts: u64,
}

/// `after` is `before` claimed for copying at time `now`.
pub open spec fn claimed(before: TransferJob, after: TransferJob, now: i64) -> bool {
    after == TransferJob { status: JobStatus::Transferring, started_at: Some(now), ..before }
}

/// Status of a job after a failed attempt with error `e`: back to pending
/// while the error is retryable and attempts remain, else to review.
pub open spec fn status_after_failure(j: TransferJob, e: CopyError) -> JobStatus {
    if e is IoError && j.attempts + 1 < j.max_attempts {
        JobStatus::Pending
    } else {
        JobStatus::NeedsReview
    }
}

/// `after` is `before` after a failed attempt with error `e`.
pub open spec fn failure_applied(before: TransferJob, after: TransferJob, e: CopyError) -> bool {
    &&& after.status == status_after_failure(before, e)
    &&& after.attempts == before.attempts + 1
    &&& after.last_error is Some
    &&& after.last_error->0@ == copy_error_message(e)
    &&& after.error_kind == Some(error_kind_of(e))
    &&& after == TransferJob {
        status: after.status,
        attempts: after.attempts,
        last_error: after.last_error,
        error_kind: after.error_kind,
        ..before
    }
}

/// `after` is `before` completed by the verified copy `c` at time `now`.
pub open spec fn success_applied(before: TransferJob, after: TransferJob, c: CopyResult, now: i64) -> bool {
    &&& after.status == JobStatus::Complete
    &&& after.source_hash == Some(c.source_hash)
    &&& after.dest_hash == Some(c.dest_hash)
    &&& after.bytes_transferred == c.bytes_copied
    &&& after.completed_at == Some(now)
    &&& after == TransferJob {
        status: after.status,
        source_hash: after.source_hash,
        dest_hash: after.dest_hash,
        bytes_transferred: after.bytes_transferred,
        completed_at: after.completed_at,
        ..before
    }
}

/// `r` is the review item filed for job `j` failing with `e` at time `now`.
pub open spec fn review_for(r: ReviewItem, j: TransferJob, e: CopyError, now: i64) -> bool {
    &&& r.job == j.id
    &&& r.intent == j.intent
    &&& r.error_kind == error_kind_of(e)
    &&& r.error_message@ == copy_error_message(e)
    &&& r.source_path == j.source_path
    &&& r.dest_path == j.dest_path
    &&& r.options@.map_values(|o: String| o@) == resolution_spec(error_kind_of(e))
    &&& r.resolution is None
    &&& r.created_at == now
    &&& r.resolved_at is None
}

/// A failed attempt never takes a job past its attempt budget unless the job
/// goes to review: attempts grow by exactly one per failure, and a job sent
/// back to pending still has an attempt left.
pub proof fn lemma_failure_keeps_budget(before: TransferJob, after: TransferJob, e: CopyError)
    requires
        job_budget_ok(before),
        before.status == JobStatus::Transferring,
        failure_applied(before, after, e),
    ensures
        after.attempts == before.attempts + 1,
        after.status != JobStatus::NeedsReview ==> after.attempts < after.max_attempts,
        job_budget_ok(after),
{
}

impl JobStore {
    /// Claims job `job_id` for copying: a pending job becomes transferring
    /// and its copy task is returned; a job in any other state is left as it
    /// is and `None` is returned.
    pub fn claim_job(&mut self, job_id: u64, now: i64) -> (r: Result<Option<CopyTask>, CopyError>)
        requires
            old(self).wf(),
        ensures
            final(self).wf(),
            final(self).locations@ == old(self).locations@,
            final(self).intents@ == old(self).intents@,
            final(self).reviews@ == old(self).reviews@,
            final(self).next_id == old(self).next_id,
            !has_job(old(self).jobs@, job_id) ==> r == Err::<Option<CopyTask>, CopyError>(
                CopyError::JobNotFound(job_id),
            ),
            has_job(old(self).jobs@, job_id) ==> r is Ok,
            r is Ok && r->Ok_0 is None ==> final(self).jobs@ == old(self).jobs@,
            r is Ok ==> (r->Ok_0 is Some <==> old(self).jobs@[job_pos(old(self).jobs@, job_id)].status
                == JobStatus::Pending),
            r is Ok && r->Ok_0 is Some ==> claim_applied(*old(self), *final(self), job_id, r->Ok_0->0, now),
    {
        let i = match self.find_job(job_id) {
            Some(i) => i,
            None => {
                return Err(CopyError::JobNotFound(job_id));
            },
        };
        if self.jobs[i].status != JobStatus::Pending {
            return Ok(None);
        }
        self.jobs[i].status = JobStatus::Transferring;
        self.jobs[i].started_at = Some(now);
        let task = CopyTask {
            job_id,
            intent: self.jobs[i].intent,
            source_path: self.jobs[i].source_path.clone(),
            dest_path: self.jobs[i].dest_path.clone(),
            attempts: self.jobs[i].attempts,
            max_attempts: self.jobs[i].max_attempts,
        };
        proof {
            lemma_reviews_ok_kept(self.reviews@, old(self).jobs@, self.jobs@, self.next_id, self.next_id);
            assert(claimed(old(self).jobs@[i as int], self.jobs@[i as int], now));
        }
        Ok(Some(task))
    }

    /// Records `bytes` copied so far for job `job_id`. Best effort: returns
    /// false when there is no such job, and callers go on with the copy.
    pub fn update_progress(&mut self, job_id: u64, bytes: u64) -> (r: bool)
        requires
            old(self).wf(),
        ensures
            final(self).wf(),
            final(self).locations@ == old(self).locations@,
            final(self).intents@ == old(self).intents@,
            final(self).reviews@ == old(self).reviews@,
            final(self).next_id == old(self).next_id,
            r == has_job(old(self).jobs@, job_id),
            !r ==> final(self).jobs@ == old(self).jobs@,
            r ==> final(self).jobs@ == old(self).jobs@.update(
                job_pos(old(self).jobs@, job_id),
                TransferJob { bytes_transferred: bytes, ..old(self).jobs@[job_pos(old(self).jobs@, job_id)] },
            ),
    {
        match self.find_job(job_id) {
            Some(i) => {
                self.jobs[i].bytes_transferred = bytes;
                proof {
                    lemma_reviews_ok_kept(self.reviews@, old(self).jobs@, self.jobs@, self.next_id, self.next_id);
                    let updated = TransferJob { bytes_transferred: bytes, ..old(self).jobs@[i as int] };
                    assert(self.jobs@ =~= old(self).jobs@.update(i as int, updated));
                }
                true
            },
            None => false,
        }
    }
}

/// What a successful `claim_job` does: the job becomes transferring and the
/// task copies its fields.
pub open spec fn claim_applied(before: JobStore, after: JobStore, job_id: u64, t: CopyTask, now: i64) -> bool {
    let p = job_pos(before.jobs@, job_id);
    let j = before.jobs@[p];
    &&& after.jobs@.len() == before.jobs@.len()
    &&& forall|k: int| 0 <= k < before.jobs@.len() && k != p ==> after.jobs@[k] == before.jobs@[k]
    &&& claimed(j, after.jobs@[p], now)
    &&& t.job_id == job_id
    &&& t.intent == j.intent
    &&& t.source_path == j.source_path
    &&& t.dest_path == j.dest_path
    &&& t.attempts == j.attempts
    &&& t.max_attempts == j.max_attempts
}

impl JobStore {
    /// Files a review item for the failure `err` of the job at position `i`;
    /// nothing is filed when ids are exhausted.
    fn file_review(&mut self, i: usize, err: &CopyError, now: i64) -> (filed: bool)
        requires
            old(self).wf(),
            i < old(self).jobs@.len(),
            old(self).jobs@[i as int].status == JobStatus::NeedsReview,
            forall|k: int|
                0 <= k < old(self).reviews@.len() && (#[trigger] old(self).reviews@[k]).resolution is None
                    ==> old(self).reviews@[k].job != old(self).jobs@[i as int].id,
        ensures
            final(self).wf(),
            final(self).locations@ == old(self).locations@,
            final(self).intents@ == old(self).intents@,
            final(self).jobs@ == old(self).jobs@,
            filed <==> old(self).next_id < u64::MAX,
            !filed ==> final(self).reviews@ == old(self).reviews@,
            filed ==> final(self).reviews@ == old(self).reviews@.push(final(self).reviews@.last())
                && review_for(final(self).reviews@.last(), old(self).jobs@[i as int], *err, now),
    {
        if self.next_id == u64::MAX {
            return false;
        }
        let id = self.next_id;
        let kind = classify_error(err);
        let review = ReviewItem {
            id,
            job: self.jobs[i].id,
            intent: self.jobs[i].intent,
            error_kind: kind,
            error_message: err.message(),
            source_path: self.jobs[i].source_path.clone(),
            dest_path: self.jobs[i].dest_path.clone(),
            options: resolution_options(kind),
            resolution: None,
            created_at: now,
            resolved_at: None,
            source_size: None,
            source_hash: None,
            source_modified: None,
            dest_size: None,
            dest_hash: None,
            dest_modified: None,
        };
        self.reviews.push(review);
        self.next_id = id + 1;
        proof {
            let rv = self.reviews@;
            let js = self.jobs@;
            assert(rv.drop_last() =~= old(self).reviews@);
            assert forall|a: int| 0 <= a < rv.len() && (#[trigger] rv[a]).resolution is None implies open_review_ok(rv[a], js) by {
                if a == rv.len() - 1 {
                    assert(js[i as int].id == rv[a].job);
                }
            }
        }
        true
    }

    /// Records the outcome of copying job `job_id`, claimed before. A verified
    /// copy completes the job with both digests. A failure counts an attempt,
    /// stores the error, and sends the job back to pending when it is
    /// retryable and attempts remain, else to review with one review item.
    /// A success whose digests differ counts as a hash mismatch. The outcome
    /// is returned.
    pub fn finish_copy(
        &mut self,
        job_id: u64,
        outcome: Result<CopyResult, CopyError>,
        now: i64,
    ) -> (r: Result<CopyResult, CopyError>)
        requires
            old(self).wf(),
            has_job(old(self).jobs@, job_id),
            old(self).jobs@[job_pos(old(self).jobs@, job_id)].status == JobStatus::Transferring,
        ensures
            final(self).wf(),
            final(self).locations@ == old(self).locations@,
            final(self).intents@ == old(self).intents@,
            r == checked_outcome(outcome),
            copy_recorded(*old(self), *final(self), job_id, r, now),
    {
        let i = match self.find_job(job_id) {
            Some(i) => i,
            None => {
                return outcome;
            },
        };
        let outcome = match outcome {
            Ok(c) => {
                if c.verified && c.source_hash == c.dest_hash {
                    Ok(c)
                } else {
                    Err(CopyError::HashMismatch { source_hash: c.source_hash, dest_hash: c.dest_hash })
                }
            },
            Err(e) => Err(e),
        };
        match outcome {
            Ok(c) => {
                self.jobs[i].status = JobStatus::Complete;
                self.jobs[i].source_hash = Some(c.source_hash.clone());
                self.jobs[i].dest_hash = Some(c.dest_hash.clone());
                self.jobs[i].bytes_transferred = c.bytes_copied;
                self.jobs[i].completed_at = Some(now);
                proof {
                    lemma_reviews_ok_kept(self.reviews@, old(self).jobs@, self.jobs@, self.next_id, self.next_id);
                    assert(success_applied(old(self).jobs@[i as int], self.jobs@[i as int], c, now));
                }
                Ok(c)
            },
            Err(err) => {
                let new_attempts = self.jobs[i].attempts + 1;
                let kind = classify_error(&err);
                let to_review = !(err.is_retryable() && new_attempts < self.jobs[i].max_attempts);
                self.jobs[i].status = if to_review {
                    JobStatus::NeedsReview
                } else {
                    JobStatus::Pending
                };
                self.jobs[i].attempts = new_attempts;
                self.jobs[i].last_error = Some(err.message());
                self.jobs[i].error_kind = Some(kind);
                proof {
                    assert(failure_applied(old(self).jobs@[i as int], self.jobs@[i as int], err));
                    assert(jobs_ok(self.jobs@, self.next_id)) by {
                        assert forall|a: int| 0 <= a < self.jobs@.len() implies job_budget_ok(#[trigger] self.jobs@[a]) by {
                            if a == i {
                                lemma_failure_keeps_budget(old(self).jobs@[i as int], self.jobs@[i as int], err);
                            }
                        }
                        assert forall|a: int, b: int| 0 <= a < b < self.jobs@.len() implies self.jobs@[a].id != self.jobs@[b].id by {
                            assert(old(self).jobs@[a].id != old(self).jobs@[b].id);
                        }
                    }
                    lemma_reviews_ok_kept(self.reviews@, old(self).jobs@, self.jobs@, self.next_id, self.next_id);
                }
                if to_review {
                    proof {
                        let rv = self.reviews@;
                        let js = old(self).jobs@;
                        assert forall|k: int|
                            0 <= k < rv.len() && (#[trigger] rv[k]).resolution is None implies rv[k].job
                                != js[i as int].id by {
                            if rv[k].job == js[i as int].id {
                                assert(open_review_ok(rv[k], js));
                                let p = choose|p: int|
                                    0 <= p < js.len() && js[p].id == rv[k].job && js[p].status
                                        == JobStatus::NeedsReview;
                                if p < i {
                                    assert(old(self).jobs@[p].id != old(self).jobs@[i as int].id);
                                } else if p > i {
                                    assert(old(self).jobs@[i as int].id != old(self).jobs@[p].id);
                                }
                            }
                        }
                    }
                    let _ = self.file_review(i, &err, now);
                }
                Err(err)
            },
        }
    }
}

/// A copy outcome as recorded: a success is kept only when it is verified
/// with equal digests, else it becomes a hash mismatch.
pub open spec fn checked_outcome(o: Result<CopyResult, CopyError>) -> Result<CopyResult, CopyError> {
    match o {
        Ok(c) => if c.verified && c.source_hash@ == c.dest_hash@ {
            o
        } else {
            Err(CopyError::HashMismatch { source_hash: c.source_hash, dest_hash: c.dest_hash })
        },
        Err(_) => o,
    }
}

/// What `finish_copy` records for job `job_id` whose outcome is `r`: the
/// job's new state, and for a job sent to review, one new review item (unless
/// ids are exhausted). Other jobs are untouched.
pub open spec fn copy_recorded(
    before: JobStore,
    after: JobStore,
    job_id: u64,
    r: Result<CopyResult, CopyError>,
    now: i64,
) -> bool {
    let p = job_pos(before.jobs@, job_id);
    let j = before.jobs@[p];
    let files_review = r is Err && status_after_failure(j, r->Err_0) == JobStatus::NeedsReview
        && before.next_id < u64::MAX;
    &&& after.jobs@.len() == before.jobs@.len()
    &&& forall|k: int| 0 <= k < before.jobs@.len() && k != p ==> after.jobs@[k] == before.jobs@[k]
    &&& r is Ok ==> success_applied(j, after.jobs@[p], r->Ok_0, now)
    &&& r is Err ==> failure_applied(j, after.jobs@[p], r->Err_0)
    &&& files_review ==> after.reviews@ == before.reviews@.push(after.reviews@.last()) && review_for(
        after.reviews@.last(),
        j,
        r->Err_0,
        now,
    )
    &&& !files_review ==> after.reviews@ == before.reviews@
}

} // verus!
