//! Records of the job store: intents, locations, transfer jobs and review
//! items, with their status enumerations.
use vstd::prelude::*;

verus! {

/// Lifecycle of an intent.
#[derive(Debug, Clone, Copy, PartialEq, Eq, Structural)]
pub enum IntentStatus {
    Idle,
    Scanning,
    Transferring,
    Verifying,
    Complete,
    WaitingForDevice,
    NeedsReview,
    Paused,
}

/// Whether an intent runs once or keeps its destinations in sync.
#[derive(Debug, Clone, Copy, PartialEq, Eq, Structural)]
pub enum IntentKind {
    OneShot,
    Sync,
}

/// How aggressively an intent may use the machine.
#[derive(Debug, Clone, Copy, PartialEq, Eq, Structural)]
pub enum SpeedMode {
    Normal,
    Ninja,
    Blast,
}

impl Default for SpeedMode {
    fn default() -> (r: SpeedMode)
        ensures
            r == SpeedMode::Normal,
    {
        SpeedMode::Normal
    }
}

/// Lifecycle of a transfer job.
#[derive(Debug, Clone, Copy, PartialEq, Eq, Structural)]
pub enum JobStatus {
    Pending,
    Transferring,
    Verifying,
    Complete,
    Failed,
    NeedsReview,
    Skipped,
}

/// Whether a machine is the one running the engine.
#[derive(Debug, Clone, Copy, PartialEq, Eq, Structural)]
pub enum MachineKind {
    Local,
    Remote,
}

/// Closed set of failure kinds that a review item can carry.
#[derive(Debug, Clone, Copy, PartialEq, Eq, Structural)]
pub enum ErrorKind {
    Conflict,
    PermissionDenied,
    DiskFull,
    FileTooLarge,
    NameInvalid,
    SourceMissing,
    HashMismatch,
    AuthFailed,
    IoError,
    Internal,
}

/// A machine or drive plus a path: an addressable root directory.
#[derive(Debug)]
pub struct Location {
    pub id: u64,
    pub machine: Option<u64>,
    pub drive: Option<u64>,
    pub path: String,
    pub label: Option<String>,
    /// Milliseconds since the Unix epoch.
    pub created_at: i64,
    pub available: bool,
}

/// "Files from this source should end up at these destinations."
#[derive(Debug)]
pub struct Intent {
    pub id: u64,
    pub name: Option<String>,
    /// Location id of the source.
    pub source: u64,
    /// Location ids of the destinations; never empty.
    pub destinations: Vec<u64>,
    pub status: IntentStatus,
    pub kind: IntentKind,
    pub speed_mode: SpeedMode,
    pub priority: i64,
    pub created_at: i64,
    pub updated_at: i64,
    pub total_files: u64,
    pub total_bytes: u64,
    pub completed_files: u64,
    pub completed_bytes: u64,
    pub include_patterns: Option<Vec<String>>,
    pub exclude_patterns: Option<Vec<String>>,
}

/// One file copied to one destination.
#[derive(Debug)]
pub struct TransferJob {
    pub id: u64,
    /// Id of the owning intent.
    pub intent: u64,
    pub source_path: String,
    pub dest_path: String,
    /// Location id of the destination.
    pub destination: u64,
    pub size: u64,
    pub bytes_transferred: u64,
    pub status: JobStatus,
    pub attempts: u64,
    pub max_attempts: u64,
    pub last_error: Option<String>,
    pub error_kind: Option<ErrorKind>,
    pub source_hash: Option<String>,
    pub dest_hash: Option<String>,
    pub started_at: Option<i64>,
    pub completed_at: Option<i64>,
    pub created_at: i64,
}

/// A failure that needs a human decision.
#[derive(Debug)]
pub struct ReviewItem {
    pub id: u64,
    /// Id of the failed job.
    pub job: u64,
    /// Id of the job's intent.
    pub intent: u64,
    pub error_kind: ErrorKind,
    pub error_message: String,
    pub source_path: String,
    pub dest_path: String,
    /// Resolutions offered, in order.
    pub options: Vec<String>,
    pub resolution: Option<String>,
    pub created_at: i64,
    pub resolved_at: Option<i64>,
    pub source_size: Option<u64>,
    pub source_hash: Option<String>,
    pub source_modified: Option<i64>,
    pub dest_size: Option<u64>,
    pub dest_hash: Option<String>,
    pub dest_modified: Option<i64>,
}

} // verus!
