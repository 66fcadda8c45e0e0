//! Scanner: expands an intent into one transfer job per (file, destination)
//! pair and records the intent's totals.
use vstd::prelude::*;

use crate::models::{IntentStatus, JobStatus, TransferJob};
use crate::store::{
    has_intent, has_location, intent_pos, lemma_reviews_ok_kept, location_pos, JobStore,
    DEFAULT_MAX_ATTEMPTS,
};
use crate::text::{decimal, decimal_string, join_path, join_path_str, prefixed};

verus! {

/// Why a scan failed. Ids are those of the job store.
#[derive(Debug)]
pub enum ScanError {
    IntentNotFound(u64),
    SourceLocationNotFound(u64),
    DestLocationNotFound(u64),
    SourcePathNotExists(String),
    SourcePathNotDir(String),
    WalkError(String),
    DbError(String),
}

/// The message of a scan error.
pub open spec fn scan_error_message(e: ScanError) -> Seq<char> {
    match e {
        ScanError::IntentNotFound(id) => "intent not found: "@ + decimal(id as nat),
        ScanError::SourceLocationNotFound(id) => "source location not found: "@ + decimal(id as nat),
        ScanError::DestLocationNotFound(id) => "destination location not found: "@ + decimal(id as nat),
        ScanError::SourcePathNotExists(p) => "source path does not exist: "@ + p@,
        ScanError::SourcePathNotDir(p) => "source path is not a directory: "@ + p@,
        ScanError::WalkError(m) => "filesystem walk error: "@ + m@,
        ScanError::DbError(m) => "database error: "@ + m@,
    }
}

impl ScanError {
    /// The error's message.
    pub fn message(&self) -> (r: String)
        ensures
            r@ == scan_error_message(*self),
    {
        match self {
            ScanError::IntentNotFound(id) => prefixed("intent not found: ", decimal_string(*id).as_str()),
            ScanError::SourceLocationNotFound(id) => prefixed(
                "source location not found: ",
                decimal_string(*id).as_str(),
            ),
            ScanError::DestLocationNotFound(id) => prefixed(
                "destination location not found: ",
                decimal_string(*id).as_str(),
            ),
            ScanError::SourcePathNotExists(p) => prefixed("source path does not exist: ", p.as_str()),
            ScanError::SourcePathNotDir(p) => prefixed("source path is not a directory: ", p.as_str()),
            ScanError::WalkError(m) => prefixed("filesystem walk error: ", m.as_str()),
            ScanError::DbError(m) => prefixed("database error: ", m.as_str()),
        }
    }
}

/// Counts reported by a scan.
#[derive(Debug)]
pub struct ScanResult {
    pub files_found: u64,
    /// Sum of the sizes of the files found (once, not per destination).
    pub total_bytes: u64,
    pub jobs_created: u64,
    /// Symbolic links and unreadable entries met during the walk.
    pub skipped_entries: u64,
}

/// A regular file found under the source root.
#[derive(Debug)]
pub struct FileEntry {
    /// Path relative to the source root.
    pub relative_path: String,
    pub size: u64,
    /// Modification time, milliseconds since the Unix epoch.
    pub modified: i64,
}

/// One entry met while walking the source tree without following links.
#[derive(Debug)]
pub enum WalkItem {
    Directory,
    Symlink,
    /// An entry that could not be read, or whose metadata could not be read.
    Unreadable,
    File { relative_path: String, size: u64, modified: i64 },
}

/// What the source root turned out to be.
#[derive(Debug, Clone, Copy, PartialEq, Eq, Structural)]
pub enum RootKind {
    Missing,
    NotDirectory,
    Directory,
}

/// The regular files among `items`, in walk order.
pub open spec fn walk_files(items: Seq<WalkItem>) -> Seq<WalkItem>
    decreases items.len(),
{
    if items.len() == 0 {
        Seq::empty()
    } else if items.last() is File {
        walk_files(items.drop_last()).push(items.last())
    } else {
        walk_files(items.drop_last())
    }
}

/// Number of symbolic links and unreadable entries among `items`.
pub open spec fn walk_skipped(items: Seq<WalkItem>) -> nat
    decreases items.len(),
{
    if items.len() == 0 {
        0
    } else if items.last() is Symlink || items.last() is Unreadable {
        walk_skipped(items.drop_last()) + 1
    } else {
        walk_skipped(items.drop_last())
    }
}

/// `e` records the walked file `f`.
pub open spec fn entry_of(e: FileEntry, f: WalkItem) -> bool {
    &&& f is File
    &&& e.relative_path == f->relative_path
    &&& e.size == f->size
    &&& e.modified == f->modified
}

proof fn lemma_walk_bounds(items: Seq<WalkItem>)
    ensures
        walk_files(items).len() + walk_skipped(items) <= items.len(),
    decreases items.len(),
{
    if items.len() > 0 {
        lemma_walk_bounds(items.drop_last());
    }
}

/// Collects the regular files of a walk of the source root `source_path` and
/// counts the entries skipped: symbolic links (never followed) and unreadable
/// entries. Directories are descended into by the walk and not counted.
pub fn walk_source(source_path: &str, root: RootKind, items: &Vec<WalkItem>) -> (r: Result<
    (Vec<FileEntry>, u64),
    ScanError,
>)
    ensures
        root == RootKind::Missing <==> r is Err && r->Err_0 is SourcePathNotExists,
        root == RootKind::NotDirectory <==> r is Err && r->Err_0 is SourcePathNotDir,
        r is Err ==> error_path(r->Err_0) == source_path@,
        r is Ok ==> walk_collected(r->Ok_0.0@, r->Ok_0.1, items@),
{
    match root {
        RootKind::Missing => {
            return Err(ScanError::SourcePathNotExists(String::from_str(source_path)));
        },
        RootKind::NotDirectory => {
            return Err(ScanError::SourcePathNotDir(String::from_str(source_path)));
        },
        RootKind::Directory => {},
    }
    let mut entries: Vec<FileEntry> = Vec::new();
    let mut skipped: u64 = 0;
    let mut i: usize = 0;
    while i < items.len()
        invariant
            i <= items@.len(),
            walk_collected(entries@, skipped, items@.take(i as int)),
        decreases items@.len() - i,
    {
        proof {
            assert(items@.take(i + 1).drop_last() =~= items@.take(i as int));
            lemma_walk_bounds(items@.take(i as int));
        }
        match &items[i] {
            WalkItem::Directory => {},
            WalkItem::Symlink | WalkItem::Unreadable => {
                skipped = skipped + 1;
            },
            WalkItem::File { relative_path, size, modified } => {
                entries.push(
                    FileEntry { relative_path: relative_path.clone(), size: *size, modified: *modified },
                );
            },
        }
        i = i + 1;
    }
    assert(items@.take(i as int) =~= items@);
    Ok((entries, skipped))
}

/// `entries` and `skipped` are what a walk over `items` collects.
pub open spec fn walk_collected(entries: Seq<FileEntry>, skipped: u64, items: Seq<WalkItem>) -> bool {
    &&& entries.len() == walk_files(items).len()
    &&& forall|k: int| 0 <= k < entries.len() ==> entry_of(#[trigger] entries[k], walk_files(items)[k])
    &&& skipped == walk_skipped(items)
}

/// The path a root error names.
pub open spec fn error_path(e: ScanError) -> Seq<char> {
    match e {
        ScanError::SourcePathNotExists(p) => p@,
        ScanError::SourcePathNotDir(p) => p@,
        _ => Seq::empty(),
    }
}

/// Sum of the sizes of `entries`.
pub open spec fn total_size(entries: Seq<FileEntry>) -> nat
    decreases entries.len(),
{
    if entries.len() == 0 {
        0
    } else {
        total_size(entries.drop_last()) + entries.last().size as nat
    }
}

/// `j` is the pending job a scan creates for `entry` and one destination.
pub open spec fn scanned_job(
    j: TransferJob,
    intent: u64,
    source_root: Seq<char>,
    dest: u64,
    dest_root: Seq<char>,
    entry: FileEntry,
    now: i64,
) -> bool {
    &&& j.intent == intent
    &&& j.source_path@ == join_path(source_root, entry.relative_path@)
    &&& j.dest_path@ == join_path(dest_root, entry.relative_path@)
    &&& j.destination == dest
    &&& j.size == entry.size
    &&& j.bytes_transferred == 0
    &&& j.status == JobStatus::Pending
    &&& j.attempts == 0
    &&& j.max_attempts == DEFAULT_MAX_ATTEMPTS
    &&& j.last_error is None
    &&& j.error_kind is None
    &&& j.source_hash is None
    &&& j.dest_hash is None
    &&& j.started_at is None
    &&& j.completed_at is None
    &&& j.created_at == now
}

impl JobStore {
    /// Destinations of intent `id` (empty when there is no such intent).
    pub open spec fn intent_destinations(&self, id: u64) -> Seq<u64> {
        if has_intent(self.intents@, id) {
            self.intents@[intent_pos(self.intents@, id)].destinations@
        } else {
            Seq::empty()
        }
    }

    /// Root path of location `id`.
    pub open spec fn location_root(&self, id: u64) -> Seq<char> {
        self.locations@[location_pos(self.locations@, id)].path@
    }

    /// Every destination of intent `id` names a location.
    pub open spec fn destinations_resolve(&self, id: u64) -> bool {
        forall|d: int|
            0 <= d < self.intent_destinations(id).len() ==> has_location(
                self.locations@,
                #[trigger] self.intent_destinations(id)[d],
            )
    }

    /// First step of a scan: marks intent `intent_id` as scanning and
    /// resolves its source location to the root path to walk.
    pub fn begin_scan(&mut self, intent_id: u64, now: i64) -> (r: Result<String, ScanError>)
        requires
            old(self).wf(),
        ensures
            final(self).wf(),
            final(self).locations@ == old(self).locations@,
            final(self).jobs@ == old(self).jobs@,
            final(self).reviews@ == old(self).reviews@,
            final(self).next_id == old(self).next_id,
            !has_intent(old(self).intents@, intent_id) ==> r == Err::<String, ScanError>(
                ScanError::IntentNotFound(intent_id),
            ) && final(self).intents@ == old(self).intents@,
            has_intent(old(self).intents@, intent_id) ==> scan_started(
                *old(self),
                *final(self),
                intent_id,
                now,
                r,
            ),
    {
        let i = match self.find_intent(intent_id) {
            Some(i) => i,
            None => {
                return Err(ScanError::IntentNotFound(intent_id));
            },
        };
        self.intents[i].status = IntentStatus::Scanning;
        self.intents[i].updated_at = now;
        let source = self.intents[i].source;
        assert(forall|k: int| 0 <= k < self.intents@.len() ==> self.intents@[k].id == old(self).intents@[k].id);
        match self.location_path(source) {
            Some(p) => Ok(p),
            None => Err(ScanError::SourceLocationNotFound(source)),
        }
    }
}

/// What `begin_scan` does to an existing intent: it becomes scanning, and the
/// result is the source root or the missing source location.
pub open spec fn scan_started(
    before: JobStore,
    after: JobStore,
    intent_id: u64,
    now: i64,
    r: Result<String, ScanError>,
) -> bool {
    let p = intent_pos(before.intents@, intent_id);
    let old_i = before.intents@[p];
    let new_i = after.intents@[p];
    &&& after.intents@.len() == before.intents@.len()
    &&& forall|k: int| 0 <= k < before.intents@.len() && k != p ==> after.intents@[k] == before.intents@[k]
    &&& new_i.status == IntentStatus::Scanning
    &&& new_i.updated_at == now
    &&& new_i.id == old_i.id
    &&& new_i.source == old_i.source
    &&& new_i.destinations == old_i.destinations
    &&& new_i.total_files == old_i.total_files
    &&& new_i.total_bytes == old_i.total_bytes
    &&& new_i.completed_files == old_i.completed_files
    &&& (r is Ok <==> has_location(before.locations@, old_i.source))
    &&& r is Ok ==> r->Ok_0@ == before.location_root(old_i.source)
    &&& r is Err ==> r->Err_0 == ScanError::SourceLocationNotFound(old_i.source)
}

/// Slot `(d, e)` of the jobs a scan creates holds the job for entry `e` at
/// destination `d`; slots run destination by destination.
pub open spec fn scan_slot(
    before: JobStore,
    created: Seq<TransferJob>,
    width: int,
    d: int,
    e: int,
    intent: u64,
    source_root: Seq<char>,
    dests: Seq<u64>,
    entries: Seq<FileEntry>,
    now: i64,
) -> bool {
    scanned_job(
        created[d * width + e],
        intent,
        source_root,
        dests[d],
        before.location_root(dests[d]),
        entries[e],
        now,
    )
}

proof fn lemma_slot_below(d: int, e: int, dd: int, w: int)
    requires
        0 <= dd < d,
        0 <= e < w,
    ensures
        dd * w + e < d * w,
        0 <= dd * w + e,
{
    assert(dd * w + e < d * w) by (nonlinear_arith)
        requires
            0 <= dd < d,
            0 <= e < w,
    ;
    assert(0 <= dd * w) by (nonlinear_arith)
        requires
            0 <= dd,
            0 <= w,
    ;
}

proof fn lemma_total_size_prefix(entries: Seq<FileEntry>, k: int)
    requires
        0 <= k <= entries.len(),
    ensures
        total_size(entries.take(k)) <= total_size(entries),
    decreases entries.len() - k,
{
    if k < entries.len() {
        lemma_total_size_prefix(entries, k + 1);
        assert(entries.take(k + 1).drop_last() =~= entries.take(k));
    } else {
        assert(entries.take(k) =~= entries);
    }
}

impl JobStore {
    /// Allocates an id and appends the pending job for `entry` at one
    /// destination; false when ids are exhausted.
    fn push_scanned_job(
        &mut self,
        intent_id: u64,
        source_root: &str,
        dest: u64,
        dest_root: &str,
        entry: &FileEntry,
        now: i64,
    ) -> (ok: bool)
        requires
            old(self).wf(),
        ensures
            final(self).wf(),
            final(self).locations@ == old(self).locations@,
            final(self).intents@ == old(self).intents@,
            final(self).reviews@ == old(self).reviews@,
            ok <==> old(self).next_id < u64::MAX,
            !ok ==> final(self).jobs@ == old(self).jobs@,
            ok ==> final(self).jobs@ == old(self).jobs@.push(final(self).jobs@.last())
                && scanned_job(final(self).jobs@.last(), intent_id, source_root@, dest, dest_root@, *entry, now)
                && final(self).next_id == old(self).next_id + 1,
    {
        if self.next_id == u64::MAX {
            return false;
        }
        let id = self.next_id;
        let job = TransferJob {
            id,
            intent: intent_id,
            source_path: join_path_str(source_root, entry.relative_path.as_str()),
            dest_path: join_path_str(dest_root, entry.relative_path.as_str()),
            destination: dest,
            size: entry.size,
            bytes_transferred: 0,
            status: JobStatus::Pending,
            attempts: 0,
            max_attempts: DEFAULT_MAX_ATTEMPTS,
            last_error: None,
            error_kind: None,
            source_hash: None,
            dest_hash: None,
            started_at: None,
            completed_at: None,
            created_at: now,
        };
        self.jobs.push(job);
        self.next_id = id + 1;
        proof {
            lemma_reviews_ok_kept(self.reviews@, old(self).jobs@, self.jobs@, old(self).next_id, self.next_id);
        }
        true
    }

    /// Last step of a scan of intent `intent_id`: given the files found under
    /// `source_root`, creates one pending job per (destination, file) pair,
    /// destination by destination, and records the intent's totals. The
    /// intent becomes complete when no job was created, else transferring.
    pub fn finish_scan(
        &mut self,
        intent_id: u64,
        source_root: &str,
        entries: &Vec<FileEntry>,
        skipped: u64,
        now: i64,
    ) -> (r: Result<ScanResult, ScanError>)
        requires
            old(self).wf(),
            total_size(entries@) * old(self).intent_destinations(intent_id).len() <= u64::MAX,
        ensures
            final(self).wf(),
            final(self).locations@ == old(self).locations@,
            final(self).reviews@ == old(self).reviews@,
            !has_intent(old(self).intents@, intent_id) ==> r == Err::<ScanResult, ScanError>(
                ScanError::IntentNotFound(intent_id),
            ),
            has_intent(old(self).intents@, intent_id) && !old(self).destinations_resolve(intent_id)
                ==> r is Err && dest_missing(*old(self), intent_id, r->Err_0),
            (r is Err && !(r->Err_0 is DbError)) ==> final(self).jobs@ == old(self).jobs@
                && final(self).intents@ == old(self).intents@,
            r is Err && r->Err_0 is DbError ==> old(self).next_id + entries@.len()
                * old(self).intent_destinations(intent_id).len() > u64::MAX,
            (has_intent(old(self).intents@, intent_id) && old(self).destinations_resolve(intent_id)
                && old(self).next_id + entries@.len() * old(self).intent_destinations(intent_id).len()
                <= u64::MAX) ==> r is Ok,
            r is Ok ==> scan_applied(*old(self), *final(self), intent_id, source_root@, entries@, now)
                && scan_counts(r->Ok_0, entries@, old(self).intent_destinations(intent_id).len(), skipped),
    {
        let i = match self.find_intent(intent_id) {
            Some(i) => i,
            None => {
                return Err(ScanError::IntentNotFound(intent_id));
            },
        };
        let ghost dests_spec = self.intents@[i as int].destinations@;
        let ghost old_len = self.jobs@.len();
        let mut dests: Vec<u64> = Vec::new();
        let mut roots: Vec<String> = Vec::new();
        let mut k: usize = 0;
        while k < self.intents[i].destinations.len()
            invariant
                self.wf(),
                *self == *old(self),
                i < self.intents@.len(),
                i == intent_pos(self.intents@, intent_id),
                dests_spec == self.intents@[i as int].destinations@,
                dests_spec == self.intent_destinations(intent_id),
                k <= dests_spec.len(),
                dests@ == dests_spec.take(k as int),
                roots@.len() == k,
                forall|d: int| 0 <= d < k ==> has_location(self.locations@, dests_spec[d]),
                forall|d: int| 0 <= d < k ==> (#[trigger] roots@[d])@ == self.location_root(dests_spec[d]),
            decreases dests_spec.len() - k,
        {
            let d = self.intents[i].destinations[k];
            match self.location_path(d) {
                Some(p) => {
                    dests.push(d);
                    roots.push(p);
                },
                None => {
                    return Err(ScanError::DestLocationNotFound(d));
                },
            }
            k = k + 1;
            assert(dests@ =~= dests_spec.take(k as int));
        }
        assert(dests@ =~= dests_spec);
        assert(old(self).destinations_resolve(intent_id)) by {
            assert forall|dd: int| 0 <= dd < old(self).intent_destinations(intent_id).len() implies has_location(
                old(self).locations@,
                #[trigger] old(self).intent_destinations(intent_id)[dd],
            ) by {
                assert(has_location(self.locations@, dests_spec[dd]));
            }
        }
        // Sum of the entry sizes.
        let mut total: u64 = 0;
        let mut e: usize = 0;
        proof {
            assert(total_size(entries@) <= total_size(entries@) * dests_spec.len()) by (nonlinear_arith)
                requires
                    dests_spec.len() > 0,
            ;
        }
        while e < entries.len()
            invariant
                e <= entries@.len(),
                total == total_size(entries@.take(e as int)),
                total_size(entries@) <= u64::MAX,
            decreases entries@.len() - e,
        {
            proof {
                assert(entries@.take(e + 1).drop_last() =~= entries@.take(e as int));
                lemma_total_size_prefix(entries@, e + 1);
            }
            total = total + entries[e].size;
            e = e + 1;
        }
        assert(entries@.take(e as int) =~= entries@);
        let ghost width = entries@.len() as int;
        let ghost before = *old(self);
        let mut created: u64 = 0;
        let mut d: usize = 0;
        while d < dests.len()
            invariant
                self.wf(),
                self.locations@ == before.locations@,
                self.intents@ == before.intents@,
                self.reviews@ == before.reviews@,
                before == *old(self),
                has_intent(before.intents@, intent_id),
                before.destinations_resolve(intent_id),
                dests_spec == before.intent_destinations(intent_id),
                i == intent_pos(before.intents@, intent_id),
                before.wf(),
                dests@ == dests_spec,
                roots@.len() == dests@.len(),
                forall|dd: int|
                    0 <= dd < dests@.len() ==> (#[trigger] roots@[dd])@ == before.location_root(
                        dests_spec[dd],
                    ),
                width == entries@.len(),
                d <= dests@.len(),
                self.jobs@.len() == old_len + d * width,
                self.jobs@.take(old_len as int) == before.jobs@,
                self.next_id == before.next_id + d * width,
                created == d * width,
                forall|dd: int, ee: int|
                    0 <= dd < d && 0 <= ee < width ==> #[trigger] scan_slot(
                        before,
                        self.jobs@.skip(old_len as int),
                        width,
                        dd,
                        ee,
                        intent_id,
                        source_root@,
                        dests_spec,
                        entries@,
                        now,
                    ),
            decreases dests@.len() - d,
        {
            let ghost mid = self.jobs@;
            let mut e: usize = 0;
            while e < entries.len()
                invariant
                    self.wf(),
                    self.locations@ == before.locations@,
                    self.intents@ == before.intents@,
                    self.reviews@ == before.reviews@,
                    before == *old(self),
                    has_intent(before.intents@, intent_id),
                    before.destinations_resolve(intent_id),
                    dests_spec == before.intent_destinations(intent_id),
                    i == intent_pos(before.intents@, intent_id),
                has_intent(before.intents@, intent_id),
                before.destinations_resolve(intent_id),
                dests_spec == before.intent_destinations(intent_id),
                i == intent_pos(before.intents@, intent_id),
                    before.wf(),
                    dests@ == dests_spec,
                    roots@.len() == dests@.len(),
                    d < dests@.len(),
                    (roots@[d as int])@ == before.location_root(dests_spec[d as int]),
                    width == entries@.len(),
                    e <= width,
                    self.jobs@.len() == mid.len() + e,
                    mid.len() == old_len + d * width,
                    self.jobs@.take(mid.len() as int) == mid,
                    self.next_id == before.next_id + d * width + e,
                    created == d * width + e,
                    forall|ee: int|
                        0 <= ee < e ==> #[trigger] scanned_job(
                            self.jobs@[mid.len() + ee],
                            intent_id,
                            source_root@,
                            dests_spec[d as int],
                            before.location_root(dests_spec[d as int]),
                            entries@[ee],
                            now,
                        ),
                decreases width - e,
            {
                let ok = self.push_scanned_job(
                    intent_id,
                    source_root,
                    dests[d],
                    roots[d].as_str(),
                    &entries[e],
                    now,
                );
                if !ok {
                    proof {
                        lemma_slot_below(dests@.len() as int, e as int, d as int, width);
                        assert(dests_spec.len() * width == entries@.len() * dests_spec.len()) by (nonlinear_arith)
                            requires
                                width == entries@.len(),
                        ;
                    }
                    return Err(ScanError::DbError(String::from_str("record ids exhausted")));
                }
                created = created + 1;
                e = e + 1;
                proof {
                    assert(self.jobs@.take(mid.len() as int) =~= mid);
                }
            }
            proof {
                let s_old = mid.skip(old_len as int);
                let s_new = self.jobs@.skip(old_len as int);
                let ghost src = source_root@;
                assert forall|dd: int, ee: int| 0 <= dd < d + 1 && 0 <= ee < width implies #[trigger] scan_slot(
                    before,
                    s_new,
                    width,
                    dd,
                    ee,
                    intent_id,
                    src,
                    dests_spec,
                    entries@,
                    now,
                ) by {
                    if dd < d {
                        lemma_slot_below(d as int, ee, dd, width);
                        assert(scan_slot(before, s_old, width, dd, ee, intent_id, src, dests_spec, entries@, now));
                        assert(s_new[dd * width + ee] == self.jobs@[old_len + dd * width + ee]);
                        let at = old_len + dd * width + ee;
                        assert(self.jobs@.take(mid.len() as int)[at] == mid[at]);
                    } else {
                        let dd_root = before.location_root(dests_spec[d as int]);
                        let j = self.jobs@[mid.len() + ee];
                        assert(scanned_job(j, intent_id, src, dests_spec[d as int], dd_root, entries@[ee], now));
                    }
                }
                assert(self.jobs@.take(old_len as int) =~= before.jobs@) by {
                    assert(self.jobs@.take(mid.len() as int) == mid);
                }
                assert((d + 1) * width == d * width + width) by (nonlinear_arith);
            }
            d = d + 1;
        }
        proof {
            assert(d * width == entries@.len() * dests_spec.len()) by (nonlinear_arith)
                requires
                    d == dests_spec.len(),
                    width == entries@.len(),
            ;
            assert(total as nat * dests_spec.len() == total_size(entries@) * dests_spec.len());
        }
        let jobs_created = created;
        let total_bytes = total * (dests.len() as u64);
        self.intents[i].status = if jobs_created == 0 {
            IntentStatus::Complete
        } else {
            IntentStatus::Transferring
        };
        self.intents[i].total_files = jobs_created;
        self.intents[i].total_bytes = total_bytes;
        self.intents[i].updated_at = now;
        assert(forall|k: int|
            0 <= k < self.intents@.len() ==> self.intents@[k].id == old(self).intents@[k].id);
        Ok(
            ScanResult {
                files_found: entries.len() as u64,
                total_bytes: total,
                jobs_created,
                skipped_entries: skipped,
            },
        )
    }
}

/// `e` names a destination of intent `intent_id` that no location has.
pub open spec fn dest_missing(before: JobStore, intent_id: u64, e: ScanError) -> bool {
    &&& e is DestLocationNotFound
    &&& before.intent_destinations(intent_id).contains(e->DestLocationNotFound_0)
    &&& !has_location(before.locations@, e->DestLocationNotFound_0)
}

/// The counts a scan of `entries` into `dests` destinations reports.
pub open spec fn scan_counts(r: ScanResult, entries: Seq<FileEntry>, dests: nat, skipped: u64) -> bool {
    &&& r.files_found == entries.len()
    &&& r.total_bytes == total_size(entries)
    &&& r.jobs_created == entries.len() * dests
    &&& r.skipped_entries == skipped
}

/// What a successful `finish_scan` does to the store: the jobs of every
/// (destination, entry) pair are appended and the intent's totals are set.
pub open spec fn scan_applied(
    before: JobStore,
    after: JobStore,
    intent_id: u64,
    source_root: Seq<char>,
    entries: Seq<FileEntry>,
    now: i64,
) -> bool {
    let dests = before.intent_destinations(intent_id);
    let n = entries.len() * dests.len();
    let p = intent_pos(before.intents@, intent_id);
    let old_i = before.intents@[p];
    let new_i = after.intents@[p];
    &&& after.jobs@.len() == before.jobs@.len() + n
    &&& after.jobs@.take(before.jobs@.len() as int) == before.jobs@
    &&& forall|d: int, e: int|
        0 <= d < dests.len() && 0 <= e < entries.len() ==> #[trigger] scan_slot(
            before,
            after.jobs@.skip(before.jobs@.len() as int),
            entries.len() as int,
            d,
            e,
            intent_id,
            source_root,
            dests,
            entries,
            now,
        )
    &&& after.intents@.len() == before.intents@.len()
    &&& forall|k: int| 0 <= k < before.intents@.len() && k != p ==> after.intents@[k] == before.intents@[k]
    &&& new_i.id == old_i.id
    &&& new_i.source == old_i.source
    &&& new_i.destinations == old_i.destinations
    &&& new_i.status == (if n == 0 { IntentStatus::Complete } else { IntentStatus::Transferring })
    &&& new_i.total_files == n
    &&& new_i.total_bytes == total_size(entries) * dests.len()
    &&& new_i.completed_files == old_i.completed_files
    &&& new_i.updated_at == now
}

/// Whether the bytes of `entries` times the destination count of intent
/// `intent_id` fit in a `u64`, as `finish_scan` needs.
pub fn total_bytes_fit(store: &JobStore, intent_id: u64, entries: &Vec<FileEntry>) -> (r: bool)
    requires
        store.wf(),
    ensures
        r == (total_size(entries@) * store.intent_destinations(intent_id).len() <= u64::MAX),
{
    let dests: u64 = match store.intent(intent_id) {
        Some(i) => i.destinations.len() as u64,
        None => 0,
    };
    let ghost d = store.intent_destinations(intent_id).len();
    assert(dests == d);
    let mut total: u64 = 0;
    let mut e: usize = 0;
    while e < entries.len()
        invariant
            e <= entries@.len(),
            total == total_size(entries@.take(e as int)),
            dests == d,
            d == store.intent_destinations(intent_id).len(),
        decreases entries@.len() - e,
    {
        assert(entries@.take(e + 1).drop_last() =~= entries@.take(e as int));
        if total > u64::MAX - entries[e].size {
            if dests == 0 {
                proof {
                    assert(total_size(entries@) * d == 0) by (nonlinear_arith)
                        requires
                            d == 0,
                    ;
                }
                return true;
            }
            proof {
                lemma_total_size_prefix(entries@, e + 1);
                assert(total_size(entries@.take(e + 1)) == total + entries@[e as int].size);
                assert(total_size(entries@) <= total_size(entries@) * d) by (nonlinear_arith)
                    requires
                        d >= 1,
                ;
            }
            return false;
        }
        total = total + entries[e].size;
        e = e + 1;
    }
    assert(entries@.take(e as int) =~= entries@);
    if dests == 0 {
        assert(total_size(entries@) * d == 0) by (nonlinear_arith)
            requires
                d == 0,
        ;
        return true;
    }
    let fits = total <= u64::MAX / dests;
    proof {
        let t = total as int;
        let m = u64::MAX as int;
        let q = m / (d as int);
        assert(q * d <= m && m < (q + 1) * d) by (nonlinear_arith)
            requires
                d >= 1,
                q == m / (d as int),
        ;
        if t <= q {
            assert(t * d <= q * d) by (nonlinear_arith)
                requires
                    t <= q,
                    d >= 1,
            ;
        } else {
            assert(t * d >= (q + 1) * d) by (nonlinear_arith)
                requires
                    t >= q + 1,
                    d >= 1,
            ;
        }
    }
    fits
}

} // verus!
