//! The job store: an in-memory table of locations, intents, transfer jobs and
//! review items, with one id counter for all records.
use vstd::prelude::*;

use crate::models::{Intent, IntentKind, IntentStatus, JobStatus, Location, ReviewItem, SpeedMode, TransferJob};

verus! {

/// Attempts a job gets before its failures go to review.
pub const DEFAULT_MAX_ATTEMPTS: u64 = 3;

/// Records of the engine. Every operation keeps the store well formed
/// (`wf`): ids are unique and below `next_id`, every job stays within its
/// attempt budget, complete jobs carry equal digests, and each job has at
/// most one open review item.
#[derive(Debug)]
pub struct JobStore {
    pub locations: Vec<Location>,
    pub intents: Vec<Intent>,
    pub jobs: Vec<TransferJob>,
    pub reviews: Vec<ReviewItem>,
    /// The id the next created record gets.
    pub next_id: u64,
}

/// Position of the job with id `id`.
pub open spec fn job_pos(jobs: Seq<TransferJob>, id: u64) -> int {
    choose|i: int| 0 <= i < jobs.len() && jobs[i].id == id
}

/// Some job has id `id`.
pub open spec fn has_job(jobs: Seq<TransferJob>, id: u64) -> bool {
    exists|i: int| 0 <= i < jobs.len() && jobs[i].id == id
}

/// Position of the intent with id `id`.
pub open spec fn intent_pos(intents: Seq<Intent>, id: u64) -> int {
    choose|i: int| 0 <= i < intents.len() && intents[i].id == id
}

/// Some intent has id `id`.
pub open spec fn has_intent(intents: Seq<Intent>, id: u64) -> bool {
    exists|i: int| 0 <= i < intents.len() && intents[i].id == id
}

/// Position of the location with id `id`.
pub open spec fn location_pos(locations: Seq<Location>, id: u64) -> int {
    choose|i: int| 0 <= i < locations.len() && locations[i].id == id
}

/// Some location has id `id`.
pub open spec fn has_location(locations: Seq<Location>, id: u64) -> bool {
    exists|i: int| 0 <= i < locations.len() && locations[i].id == id
}

/// The retry budget of a job: attempts never pass the maximum, and a job
/// that may still be dispatched has at least one attempt left.
pub open spec fn job_budget_ok(j: TransferJob) -> bool {
    &&& j.attempts <= j.max_attempts
    &&& (j.status == JobStatus::Pending || j.status == JobStatus::Transferring) ==> j.attempts
        < j.max_attempts
}

/// A complete job carries two equal digests.
pub open spec fn job_hashes_ok(j: TransferJob) -> bool {
    j.status == JobStatus::Complete ==> {
        &&& j.source_hash is Some
        &&& j.dest_hash is Some
        &&& j.source_hash->0@ == j.dest_hash->0@
    }
}

/// Job ids are unique and allocated; each job keeps its budget and digests.
pub open spec fn jobs_ok(jobs: Seq<TransferJob>, next_id: u64) -> bool {
    &&& forall|i: int, k: int| 0 <= i < k < jobs.len() ==> jobs[i].id != jobs[k].id
    &&& forall|i: int| 0 <= i < jobs.len() ==> #[trigger] jobs[i].id < next_id
    &&& forall|i: int| 0 <= i < jobs.len() ==> job_budget_ok(#[trigger] jobs[i])
    &&& forall|i: int| 0 <= i < jobs.len() ==> job_hashes_ok(#[trigger] jobs[i])
}

/// Open review items belong to jobs waiting for review, at most one per job.
pub open spec fn reviews_ok(reviews: Seq<ReviewItem>, jobs: Seq<TransferJob>, next_id: u64) -> bool {
    &&& forall|i: int| 0 <= i < reviews.len() ==> #[trigger] reviews[i].id < next_id
    &&& forall|i: int, k: int| 0 <= i < k < reviews.len() ==> reviews[i].id != reviews[k].id
    &&& forall|i: int|
        0 <= i < reviews.len() && (#[trigger] reviews[i]).resolution is None ==> open_review_ok(
            reviews[i],
            jobs,
        )
    &&& forall|i: int, k: int|
        0 <= i < k < reviews.len() && reviews[i].resolution is None && reviews[k].resolution is None
            ==> reviews[i].job != reviews[k].job
}

/// The job of the open review item `r` is waiting for review.
pub open spec fn open_review_ok(r: ReviewItem, jobs: Seq<TransferJob>) -> bool {
    exists|p: int| 0 <= p < jobs.len() && jobs[p].id == r.job && jobs[p].status == JobStatus::NeedsReview
}

/// Review items stay well formed when the jobs table grows or changes
/// without touching ids or jobs waiting for review.
pub(crate) proof fn lemma_reviews_ok_kept(
    reviews: Seq<ReviewItem>,
    jobs: Seq<TransferJob>,
    jobs2: Seq<TransferJob>,
    n: u64,
    n2: u64,
)
    requires
        reviews_ok(reviews, jobs, n),
        n <= n2,
        jobs.len() <= jobs2.len(),
        forall|k: int| 0 <= k < jobs.len() ==> (#[trigger] jobs2[k]).id == jobs[k].id,
        forall|k: int|
            0 <= k < jobs.len() && jobs[k].status == JobStatus::NeedsReview ==> (#[trigger] jobs2[k]).status
                == JobStatus::NeedsReview,
    ensures
        reviews_ok(reviews, jobs2, n2),
{
    assert forall|i: int| 0 <= i < reviews.len() && (#[trigger] reviews[i]).resolution is None implies open_review_ok(reviews[i], jobs2) by {
        let p = choose|p: int| 0 <= p < jobs.len() && jobs[p].id == reviews[i].job && jobs[p].status == JobStatus::NeedsReview;
        assert(jobs2[p].id == reviews[i].job);
    }
}

impl JobStore {
    /// The store's invariant.
    pub open spec fn wf(&self) -> bool {
        &&& forall|i: int, k: int|
            0 <= i < k < self.locations@.len() ==> self.locations@[i].id != self.locations@[k].id
        &&& forall|i: int| 0 <= i < self.locations@.len() ==> #[trigger] self.locations@[i].id < self.next_id
        &&& forall|i: int, k: int|
            0 <= i < k < self.intents@.len() ==> self.intents@[i].id != self.intents@[k].id
        &&& forall|i: int| 0 <= i < self.intents@.len() ==> #[trigger] self.intents@[i].id < self.next_id
        &&& forall|i: int| 0 <= i < self.intents@.len() ==> (#[trigger] self.intents@[i]).destinations@.len() > 0
        &&& jobs_ok(self.jobs@, self.next_id)
        &&& reviews_ok(self.reviews@, self.jobs@, self.next_id)
    }

    /// An empty store.
    pub fn new() -> (r: JobStore)
        ensures
            r.wf(),
            r.locations@.len() == 0,
            r.intents@.len() == 0,
            r.jobs@.len() == 0,
            r.reviews@.len() == 0,
    {
        JobStore {
            locations: Vec::new(),
            intents: Vec::new(),
            jobs: Vec::new(),
            reviews: Vec::new(),
            next_id: 1,
        }
    }

    /// Position of the job `id`, if there is one.
    pub fn find_job(&self, id: u64) -> (r: Option<usize>)
        requires
            self.wf(),
        ensures
            r is None <==> !has_job(self.jobs@, id),
            r is Some ==> r->0 == job_pos(self.jobs@, id) && 0 <= r->0 < self.jobs@.len()
                && self.jobs@[r->0 as int].id == id,
    {
        let mut i: usize = 0;
        while i < self.jobs.len()
            invariant
                self.wf(),
                i <= self.jobs@.len(),
                forall|k: int| 0 <= k < i ==> self.jobs@[k].id != id,
            decreases self.jobs@.len() - i,
        {
            if self.jobs[i].id == id {
                proof {
                    let p = job_pos(self.jobs@, id);
                    assert(has_job(self.jobs@, id));
                    assert(0 <= p < self.jobs@.len() && self.jobs@[p].id == id);
                    if p != i as int {
                        if p < i {
                            assert(self.jobs@[p].id != self.jobs@[i as int].id);
                        } else {
                            assert(self.jobs@[i as int].id != self.jobs@[p].id);
                        }
                    }
                }
                return Some(i);
            }
            i = i + 1;
        }
        None
    }

    /// Position of the intent `id`, if there is one.
    pub fn find_intent(&self, id: u64) -> (r: Option<usize>)
        requires
            self.wf(),
        ensures
            r is None <==> !has_intent(self.intents@, id),
            r is Some ==> r->0 == intent_pos(self.intents@, id) && 0 <= r->0 < self.intents@.len()
                && self.intents@[r->0 as int].id == id,
    {
        let mut i: usize = 0;
        while i < self.intents.len()
            invariant
                self.wf(),
                i <= self.intents@.len(),
                forall|k: int| 0 <= k < i ==> self.intents@[k].id != id,
            decreases self.intents@.len() - i,
        {
            if self.intents[i].id == id {
                proof {
                    let p = intent_pos(self.intents@, id);
                    assert(has_intent(self.intents@, id));
                    if p != i as int {
                        if p < i {
                            assert(self.intents@[p].id != self.intents@[i as int].id);
                        } else {
                            assert(self.intents@[i as int].id != self.intents@[p].id);
                        }
                    }
                }
                return Some(i);
            }
            i = i + 1;
        }
        None
    }

    /// Position of the location `id`, if there is one.
    pub fn find_location(&self, id: u64) -> (r: Option<usize>)
        requires
            self.wf(),
        ensures
            r is None <==> !has_location(self.locations@, id),
            r is Some ==> r->0 == location_pos(self.locations@, id) && 0 <= r->0
                < self.locations@.len() && self.locations@[r->0 as int].id == id,
    {
        let mut i: usize = 0;
        while i < self.locations.len()
            invariant
                self.wf(),
                i <= self.locations@.len(),
                forall|k: int| 0 <= k < i ==> self.locations@[k].id != id,
            decreases self.locations@.len() - i,
        {
            if self.locations[i].id == id {
                proof {
                    let p = location_pos(self.locations@, id);
                    assert(has_location(self.locations@, id));
                    if p != i as int {
                        if p < i {
                            assert(self.locations@[p].id != self.locations@[i as int].id);
                        } else {
                            assert(self.locations@[i as int].id != self.locations@[p].id);
                        }
                    }
                }
                return Some(i);
            }
            i = i + 1;
        }
        None
    }

    /// The path of location `id`, if there is one.
    pub fn location_path(&self, id: u64) -> (r: Option<String>)
        requires
            self.wf(),
        ensures
            r is None <==> !has_location(self.locations@, id),
            r is Some ==> r->0@ == self.locations@[location_pos(self.locations@, id)].path@,
    {
        match self.find_location(id) {
            Some(i) => Some(self.locations[i].path.clone()),
            None => None,
        }
    }

    /// Records a new location rooted at `path`; `None` when ids are exhausted.
    pub fn add_location(&mut self, path: String, label: Option<String>, now: i64) -> (r: Option<u64>)
        requires
            old(self).wf(),
        ensures
            final(self).wf(),
            final(self).intents@ == old(self).intents@,
            final(self).jobs@ == old(self).jobs@,
            final(self).reviews@ == old(self).reviews@,
            r is None <==> old(self).next_id == u64::MAX,
            r is None ==> final(self).locations@ == old(self).locations@,
            r is Some ==> r->0 == old(self).next_id && final(self).locations@.len()
                == old(self).locations@.len() + 1 && final(self).locations@.drop_last()
                == old(self).locations@ && final(self).locations@.last().id == r->0
                && final(self).locations@.last().path == path,
    {
        if self.next_id == u64::MAX {
            return None;
        }
        let id = self.next_id;
        self.locations.push(
            Location { id, machine: None, drive: None, path, label, created_at: now, available: true },
        );
        self.next_id = id + 1;
        assert(final(self).locations@.drop_last() =~= old(self).locations@);
        Some(id)
    }

    /// Records a new idle intent copying location `source` to the locations
    /// `destinations`; `None` when ids are exhausted.
    pub fn add_intent(
        &mut self,
        name: Option<String>,
        source: u64,
        destinations: Vec<u64>,
        kind: IntentKind,
        priority: i64,
        now: i64,
    ) -> (r: Option<u64>)
        requires
            old(self).wf(),
            destinations@.len() > 0,
        ensures
            final(self).wf(),
            final(self).locations@ == old(self).locations@,
            final(self).jobs@ == old(self).jobs@,
            final(self).reviews@ == old(self).reviews@,
            r is None <==> old(self).next_id == u64::MAX,
            r is None ==> final(self).intents@ == old(self).intents@,
            r is Some ==> r->0 == old(self).next_id && final(self).intents@.drop_last()
                == old(self).intents@ && fresh_intent(
                final(self).intents@.last(),
                r->0,
                source,
                destinations@,
                kind,
                priority,
            ),
    {
        if self.next_id == u64::MAX {
            return None;
        }
        let id = self.next_id;
        let ghost dests = destinations@;
        self.intents.push(
            Intent {
                id,
                name,
                source,
                destinations,
                status: IntentStatus::Idle,
                kind,
                speed_mode: SpeedMode::Normal,
                priority,
                created_at: now,
                updated_at: now,
                total_files: 0,
                total_bytes: 0,
                completed_files: 0,
                completed_bytes: 0,
                include_patterns: None,
                exclude_patterns: None,
            },
        );
        self.next_id = id + 1;
        assert(final(self).intents@.drop_last() =~= old(self).intents@);
        Some(id)
    }

    /// The intent `id`, if there is one.
    pub fn intent(&self, id: u64) -> (r: Option<&Intent>)
        requires
            self.wf(),
        ensures
            r is None <==> !has_intent(self.intents@, id),
            r is Some ==> *r->0 == self.intents@[intent_pos(self.intents@, id)],
    {
        match self.find_intent(id) {
            Some(i) => Some(&self.intents[i]),
            None => None,
        }
    }

    /// The job `id`, if there is one.
    pub fn job(&self, id: u64) -> (r: Option<&TransferJob>)
        requires
            self.wf(),
        ensures
            r is None <==> !has_job(self.jobs@, id),
            r is Some ==> *r->0 == self.jobs@[job_pos(self.jobs@, id)],
    {
        match self.find_job(id) {
            Some(i) => Some(&self.jobs[i]),
            None => None,
        }
    }
}

/// `i` is the intent that `add_intent` records.
pub open spec fn fresh_intent(
    i: Intent,
    id: u64,
    source: u64,
    destinations: Seq<u64>,
    kind: IntentKind,
    priority: i64,
) -> bool {
    &&& i.id == id
    &&& i.source == source
    &&& i.destinations@ == destinations
    &&& i.status == IntentStatus::Idle
    &&& i.kind == kind
    &&& i.priority == priority
    &&& i.total_files == 0
    &&& i.total_bytes == 0
    &&& i.completed_files == 0
    &&& i.completed_bytes == 0
}

/// In a well-formed store every complete job carries a source digest and a
/// destination digest, and the two are equal.
pub proof fn lemma_complete_jobs_verified(store: JobStore)
    requires
        store.wf(),
    ensures
        forall|k: int|
            0 <= k < store.jobs@.len() && (#[trigger] store.jobs@[k]).status == JobStatus::Complete
                ==> store.jobs@[k].source_hash is Some && store.jobs@[k].dest_hash is Some
                && store.jobs@[k].source_hash->0@ == store.jobs@[k].dest_hash->0@,
{
    assert forall|k: int|
        0 <= k < store.jobs@.len() && (#[trigger] store.jobs@[k]).status == JobStatus::Complete
            implies store.jobs@[k].source_hash is Some && store.jobs@[k].dest_hash is Some
            && store.jobs@[k].source_hash->0@ == store.jobs@[k].dest_hash->0@ by {
        assert(job_hashes_ok(store.jobs@[k]));
    }
}

/// In a well-formed store no job has used more attempts than it is allowed,
/// and a job that can still be dispatched has an attempt left.
pub proof fn lemma_attempts_within_budget(store: JobStore)
    requires
        store.wf(),
    ensures
        forall|k: int| 0 <= k < store.jobs@.len() ==> (#[trigger] store.jobs@[k]).attempts <= store.jobs@[k].max_attempts,
        forall|k: int|
            0 <= k < store.jobs@.len() && ((#[trigger] store.jobs@[k]).status == JobStatus::Pending
                || store.jobs@[k].status == JobStatus::Transferring) ==> store.jobs@[k].attempts
                < store.jobs@[k].max_attempts,
{
    assert forall|k: int| 0 <= k < store.jobs@.len() implies job_budget_ok(#[trigger] store.jobs@[k]) by {}
}

/// In a well-formed store each job has at most one open review item, and
/// every open review item belongs to a job waiting for review.
pub proof fn lemma_one_open_review_per_job(store: JobStore)
    requires
        store.wf(),
    ensures
        forall|a: int, b: int|
            0 <= a < b < store.reviews@.len() && store.reviews@[a].resolution is None
                && store.reviews@[b].resolution is None ==> store.reviews@[a].job != store.reviews@[b].job,
        forall|a: int|
            0 <= a < store.reviews@.len() && (#[trigger] store.reviews@[a]).resolution is None
                ==> open_review_ok(store.reviews@[a], store.jobs@),
{
}

} // verus!
