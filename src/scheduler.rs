//! Scheduler: crash recovery, selection of pending work and finalisation of
//! an intent once no work is pending. Dispatching the copies themselves,
//! under the concurrency cap, is left to the host.
use vstd::prelude::*;

use crate::models::{IntentStatus, JobStatus, TransferJob};
use crate::store::{has_intent, intent_pos, jobs_ok, lemma_reviews_ok_kept, JobStore};
use crate::text::{decimal, decimal_string};

verus! {

/// Copies of one intent that may run at the same time.
pub const MAX_CONCURRENCY: usize = 4;

/// Why a run failed.
#[derive(Debug)]
pub enum SchedulerError {
    IntentNotFound(u64),
    DbError(String),
}

/// The message of a scheduler error.
pub open spec fn scheduler_error_message(e: SchedulerError) -> Seq<char> {
    match e {
        SchedulerError::IntentNotFound(id) => "intent not found: "@ + decimal(id as nat),
        SchedulerError::DbError(m) => "database error: "@ + m@,
    }
}

impl SchedulerError {
    /// The error's message.
    pub fn message(&self) -> (r: String)
        ensures
            r@ == scheduler_error_message(*self),
    {
        let mut r = match self {
            SchedulerError::IntentNotFound(_) => String::from_str("intent not found: "),
            SchedulerError::DbError(_) => String::from_str("database error: "),
        };
        match self {
            SchedulerError::IntentNotFound(id) => r.append(decimal_string(*id).as_str()),
            SchedulerError::DbError(m) => r.append(m.as_str()),
        }
        r
    }
}

/// Job counts of an intent after a run.
#[derive(Debug)]
pub struct RunResult {
    pub completed: u64,
    pub failed: u64,
    pub needs_review: u64,
}

/// A job of intent `intent_id` left transferring goes back to pending with
/// nothing transferred; every other job is unchanged.
pub open spec fn recovered_job(j: TransferJob, intent_id: u64) -> TransferJob {
    if j.intent == intent_id && j.status == JobStatus::Transferring {
        TransferJob { status: JobStatus::Pending, bytes_transferred: 0, ..j }
    } else {
        j
    }
}

pub open spec fn recovered_jobs(jobs: Seq<TransferJob>, intent_id: u64) -> Seq<TransferJob> {
    jobs.map_values(|j: TransferJob| recovered_job(j, intent_id))
}

/// Ids of the pending jobs of intent `intent_id`, in store order.
pub open spec fn pending_ids(jobs: Seq<TransferJob>, intent_id: u64) -> Seq<u64>
    decreases jobs.len(),
{
    if jobs.len() == 0 {
        Seq::empty()
    } else if jobs.last().intent == intent_id && jobs.last().status == JobStatus::Pending {
        pending_ids(jobs.drop_last(), intent_id).push(jobs.last().id)
    } else {
        pending_ids(jobs.drop_last(), intent_id)
    }
}

/// Number of jobs of intent `intent_id` with status `s`.
pub open spec fn count_status(jobs: Seq<TransferJob>, intent_id: u64, s: JobStatus) -> nat
    decreases jobs.len(),
{
    if jobs.len() == 0 {
        0
    } else if jobs.last().intent == intent_id && jobs.last().status == s {
        count_status(jobs.drop_last(), intent_id, s) + 1
    } else {
        count_status(jobs.drop_last(), intent_id, s)
    }
}

/// No job of intent `intent_id` is pending or transferring.
pub open spec fn settled(jobs: Seq<TransferJob>, intent_id: u64) -> bool {
    forall|k: int|
        0 <= k < jobs.len() && (#[trigger] jobs[k]).intent == intent_id ==> jobs[k].status
            != JobStatus::Pending && jobs[k].status != JobStatus::Transferring
}

/// The status an intent is finalised to: needs review when any of its jobs
/// does, else complete.
pub open spec fn final_status(needs_review: nat) -> IntentStatus {
    if needs_review > 0 {
        IntentStatus::NeedsReview
    } else {
        IntentStatus::Complete
    }
}

/// The counts a run reports for intent `intent_id` over `jobs`.
pub open spec fn counts_of(r: RunResult, jobs: Seq<TransferJob>, intent_id: u64) -> bool {
    &&& r.completed == count_status(jobs, intent_id, JobStatus::Complete)
    &&& r.failed == count_status(jobs, intent_id, JobStatus::Failed)
    &&& r.needs_review == count_status(jobs, intent_id, JobStatus::NeedsReview)
}

proof fn lemma_count_bound(jobs: Seq<TransferJob>, intent_id: u64, s: JobStatus)
    ensures
        count_status(jobs, intent_id, s) <= jobs.len(),
    decreases jobs.len(),
{
    if jobs.len() > 0 {
        lemma_count_bound(jobs.drop_last(), intent_id, s);
    }
}

/// After the recovery step of a run, every job of the intent that was left
/// transferring is pending with nothing transferred, no job of the intent is
/// transferring any more, and jobs of other intents are untouched.
pub proof fn lemma_recovery_resets_transferring(jobs: Seq<TransferJob>, intent_id: u64)
    ensures
        recovered_jobs(jobs, intent_id).len() == jobs.len(),
        forall|k: int|
            0 <= k < jobs.len() && jobs[k].intent == intent_id && jobs[k].status
                == JobStatus::Transferring ==> (#[trigger] recovered_jobs(jobs, intent_id)[k]).status
                == JobStatus::Pending && recovered_jobs(jobs, intent_id)[k].bytes_transferred == 0,
        forall|k: int|
            0 <= k < jobs.len() && jobs[k].intent == intent_id ==> (#[trigger] recovered_jobs(
                jobs,
                intent_id,
            )[k]).status != JobStatus::Transferring,
        forall|k: int|
            0 <= k < jobs.len() && jobs[k].intent != intent_id ==> #[trigger] recovered_jobs(
                jobs,
                intent_id,
            )[k] == jobs[k],
{
}

proof fn lemma_settled_pending_empty(jobs: Seq<TransferJob>, intent_id: u64)
    requires
        settled(jobs, intent_id),
    ensures
        pending_ids(jobs, intent_id).len() == 0,
    decreases jobs.len(),
{
    if jobs.len() > 0 {
        assert(settled(jobs.drop_last(), intent_id)) by {
            let front = jobs.drop_last();
            assert forall|k: int| 0 <= k < front.len() && (#[trigger] front[k]).intent == intent_id implies front[k].status
                != JobStatus::Pending && front[k].status != JobStatus::Transferring by {
                assert(front[k] == jobs[k]);
            }
        }
        lemma_settled_pending_empty(jobs.drop_last(), intent_id);
        let last = jobs.len() - 1;
        assert(jobs.last() == jobs[last]);
    }
}

/// Running an intent none of whose jobs is pending or transferring changes no
/// job: recovery is the identity, there is nothing to dispatch, and the
/// intent is finalised to the status its job counts determine, the same on
/// every such run.
pub proof fn lemma_rerun_is_noop(jobs: Seq<TransferJob>, intent_id: u64)
    requires
        settled(jobs, intent_id),
    ensures
        recovered_jobs(jobs, intent_id) == jobs,
        pending_ids(recovered_jobs(jobs, intent_id), intent_id).len() == 0,
        final_status(count_status(recovered_jobs(jobs, intent_id), intent_id, JobStatus::NeedsReview))
            == final_status(count_status(jobs, intent_id, JobStatus::NeedsReview)),
{
    assert(recovered_jobs(jobs, intent_id) =~= jobs) by {
        assert forall|k: int| 0 <= k < jobs.len() implies #[trigger] recovered_jobs(jobs, intent_id)[k] == jobs[k] by {
            if jobs[k].intent == intent_id {
                assert(jobs[k].status != JobStatus::Transferring);
            }
        }
    }
    lemma_settled_pending_empty(jobs, intent_id);
}

impl JobStore {
    /// First step of a run of intent `intent_id`: every job of the intent
    /// left transferring (by a copy that never finished) goes back to pending
    /// with nothing transferred. Returns how many jobs were recovered.
    pub fn begin_run(&mut self, intent_id: u64) -> (r: Result<u64, SchedulerError>)
        requires
            old(self).wf(),
        ensures
            final(self).wf(),
            final(self).locations@ == old(self).locations@,
            final(self).intents@ == old(self).intents@,
            final(self).reviews@ == old(self).reviews@,
            final(self).next_id == old(self).next_id,
            r is Err <==> !has_intent(old(self).intents@, intent_id),
            r is Err ==> r->Err_0 == SchedulerError::IntentNotFound(intent_id) && final(self).jobs@
                == old(self).jobs@,
            r is Ok ==> final(self).jobs@ == recovered_jobs(old(self).jobs@, intent_id) && r->Ok_0
                == count_status(old(self).jobs@, intent_id, JobStatus::Transferring),
    {
        if self.find_intent(intent_id).is_none() {
            return Err(SchedulerError::IntentNotFound(intent_id));
        }
        let ghost start = self.jobs@;
        let mut recovered: u64 = 0;
        let mut k: usize = 0;
        while k < self.jobs.len()
            invariant
                self.locations@ == old(self).locations@,
                self.intents@ == old(self).intents@,
                self.reviews@ == old(self).reviews@,
                self.next_id == old(self).next_id,
                start == old(self).jobs@,
                old(self).wf(),
                self.jobs@.len() == start.len(),
                k <= start.len(),
                forall|a: int| 0 <= a < k ==> self.jobs@[a] == recovered_job(start[a], intent_id),
                forall|a: int| k <= a < start.len() ==> self.jobs@[a] == start[a],
                recovered == count_status(start.take(k as int), intent_id, JobStatus::Transferring),
            decreases start.len() - k,
        {
            proof {
                assert(start.take(k + 1).drop_last() =~= start.take(k as int));
                lemma_count_bound(start.take(k as int), intent_id, JobStatus::Transferring);
            }
            if self.jobs[k].intent == intent_id && self.jobs[k].status == JobStatus::Transferring {
                self.jobs[k].status = JobStatus::Pending;
                self.jobs[k].bytes_transferred = 0;
                recovered = recovered + 1;
            }
            k = k + 1;
        }
        proof {
            assert(self.jobs@ =~= recovered_jobs(start, intent_id));
            assert(start.take(k as int) =~= start);
            assert(jobs_ok(self.jobs@, self.next_id)) by {
                assert forall|a: int, b: int| 0 <= a < b < self.jobs@.len() implies self.jobs@[a].id != self.jobs@[b].id by {
                    assert(start[a].id != start[b].id);
                }
                assert forall|a: int| 0 <= a < self.jobs@.len() implies #[trigger] self.jobs@[a].id < self.next_id by {
                    assert(start[a].id < self.next_id);
                }
            }
            lemma_reviews_ok_kept(self.reviews@, start, self.jobs@, self.next_id, self.next_id);
        }
        Ok(recovered)
    }

    /// Ids of the pending jobs of intent `intent_id`, in store order.
    pub fn pending_jobs(&self, intent_id: u64) -> (r: Vec<u64>)
        requires
            self.wf(),
        ensures
            r@ == pending_ids(self.jobs@, intent_id),
    {
        let mut r: Vec<u64> = Vec::new();
        let mut k: usize = 0;
        while k < self.jobs.len()
            invariant
                k <= self.jobs@.len(),
                r@ == pending_ids(self.jobs@.take(k as int), intent_id),
            decreases self.jobs@.len() - k,
        {
            assert(self.jobs@.take(k + 1).drop_last() =~= self.jobs@.take(k as int));
            if self.jobs[k].intent == intent_id && self.jobs[k].status == JobStatus::Pending {
                r.push(self.jobs[k].id);
            }
            k = k + 1;
        }
        assert(self.jobs@.take(k as int) =~= self.jobs@);
        r
    }

    /// Counts of the complete, failed and needs-review jobs of intent
    /// `intent_id`.
    pub fn compute_result(&self, intent_id: u64) -> (r: RunResult)
        requires
            self.wf(),
        ensures
            counts_of(r, self.jobs@, intent_id),
    {
        let mut r = RunResult { completed: 0, failed: 0, needs_review: 0 };
        let mut k: usize = 0;
        while k < self.jobs.len()
            invariant
                k <= self.jobs@.len(),
                counts_of(r, self.jobs@.take(k as int), intent_id),
            decreases self.jobs@.len() - k,
        {
            proof {
                let t = self.jobs@.take(k as int);
                assert(self.jobs@.take(k + 1).drop_last() =~= t);
                lemma_count_bound(t, intent_id, JobStatus::Complete);
                lemma_count_bound(t, intent_id, JobStatus::Failed);
                lemma_count_bound(t, intent_id, JobStatus::NeedsReview);
            }
            if self.jobs[k].intent == intent_id {
                match self.jobs[k].status {
                    JobStatus::Complete => r.completed = r.completed + 1,
                    JobStatus::Failed => r.failed = r.failed + 1,
                    JobStatus::NeedsReview => r.needs_review = r.needs_review + 1,
                    _ => {},
                }
            }
            k = k + 1;
        }
        assert(self.jobs@.take(k as int) =~= self.jobs@);
        r
    }

    /// Writes the outcome of a run onto intent `intent_id`: its status
    /// becomes needs-review when any job needs review, else complete, and its
    /// completed-file count becomes `result.completed`.
    pub fn finalize_intent(&mut self, intent_id: u64, result: &RunResult, now: i64) -> (r: Result<
        (),
        SchedulerError,
    >)
        requires
            old(self).wf(),
        ensures
            final(self).wf(),
            final(self).locations@ == old(self).locations@,
            final(self).jobs@ == old(self).jobs@,
            final(self).reviews@ == old(self).reviews@,
            final(self).next_id == old(self).next_id,
            r is Err <==> !has_intent(old(self).intents@, intent_id),
            r is Err ==> r->Err_0 == SchedulerError::IntentNotFound(intent_id) && final(self).intents@
                == old(self).intents@,
            r is Ok ==> finalized(
                *old(self),
                *final(self),
                intent_id,
                result.completed,
                final_status(result.needs_review as nat),
                now,
            ),
    {
        let i = match self.find_intent(intent_id) {
            Some(i) => i,
            None => {
                return Err(SchedulerError::IntentNotFound(intent_id));
            },
        };
        self.intents[i].status = if result.needs_review > 0 {
            IntentStatus::NeedsReview
        } else {
            IntentStatus::Complete
        };
        self.intents[i].completed_files = result.completed;
        self.intents[i].updated_at = now;
        assert(forall|k: int| 0 <= k < self.intents@.len() ==> self.intents@[k].id == old(self).intents@[k].id);
        Ok(())
    }

    /// Last step of a run of intent `intent_id`, once no job is pending:
    /// counts the jobs and finalises the intent from the counts.
    pub fn finish_run(&mut self, intent_id: u64, now: i64) -> (r: Result<RunResult, SchedulerError>)
        requires
            old(self).wf(),
        ensures
            final(self).wf(),
            final(self).locations@ == old(self).locations@,
            final(self).jobs@ == old(self).jobs@,
            final(self).reviews@ == old(self).reviews@,
            r is Err <==> !has_intent(old(self).intents@, intent_id),
            r is Err ==> r->Err_0 == SchedulerError::IntentNotFound(intent_id) && final(self).intents@
                == old(self).intents@,
            r is Ok ==> counts_of(r->Ok_0, old(self).jobs@, intent_id) && finalized(
                *old(self),
                *final(self),
                intent_id,
                r->Ok_0.completed,
                final_status(count_status(old(self).jobs@, intent_id, JobStatus::NeedsReview)),
                now,
            ),
    {
        let result = self.compute_result(intent_id);
        match self.finalize_intent(intent_id, &result, now) {
            Ok(()) => Ok(result),
            Err(e) => Err(e),
        }
    }
}

/// What finalising intent `intent_id` does: its status and completed-file
/// count are set; nothing else changes.
pub open spec fn finalized(
    before: JobStore,
    after: JobStore,
    intent_id: u64,
    completed: u64,
    status: IntentStatus,
    now: i64,
) -> bool {
    let p = intent_pos(before.intents@, intent_id);
    let old_i = before.intents@[p];
    let new_i = after.intents@[p];
    &&& after.intents@.len() == before.intents@.len()
    &&& forall|k: int| 0 <= k < before.intents@.len() && k != p ==> after.intents@[k] == before.intents@[k]
    &&& new_i.status == status
    &&& new_i.completed_files == completed
    &&& new_i.updated_at == now
    &&& new_i.id == old_i.id
    &&& new_i.source == old_i.source
    &&& new_i.destinations == old_i.destinations
    &&& new_i.total_files == old_i.total_files
    &&& new_i.total_bytes == old_i.total_bytes
}

} // verus!
