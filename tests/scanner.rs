use kip::models::{IntentKind, IntentStatus, JobStatus};
use kip::scanner::{walk_source, FileEntry, RootKind, ScanError, WalkItem};
use kip::store::JobStore;

fn file(path: &str, size: u64) -> WalkItem {
    WalkItem::File { relative_path: path.to_string(), size, modified: 0 }
}

/// The entries a walk of `root.txt`, `subdir/mid.txt` and
/// `subdir/deep/bottom.txt` meets, directories included.
fn tree() -> Vec<WalkItem> {
    vec![
        WalkItem::Directory,
        file("root.txt", 5),
        WalkItem::Directory,
        file("subdir/mid.txt", 2),
        WalkItem::Directory,
        file("subdir/deep/bottom.txt", 10),
    ]
}

#[test]
fn walks_nested_dirs() {
    let (entries, skipped) = walk_source("/tmp/t", RootKind::Directory, &tree()).ok().unwrap();
    assert_eq!(skipped, 0);
    assert_eq!(entries.len(), 3);
    let mut paths: Vec<&str> = entries.iter().map(|e| e.relative_path.as_str()).collect();
    paths.sort();
    assert_eq!(paths, vec!["root.txt", "subdir/deep/bottom.txt", "subdir/mid.txt"]);
}

#[test]
fn reports_correct_sizes() {
    let (entries, _) = walk_source("/tmp/t", RootKind::Directory, &tree()).ok().unwrap();
    let total: u64 = entries.iter().map(|e| e.size).sum();
    // "hello" (5) + "ab" (2) + "abcdefghij" (10)
    assert_eq!(total, 17);
}

#[test]
fn skips_symlinks() {
    let mut items = tree();
    items.push(WalkItem::Symlink);
    let (entries, skipped) = walk_source("/tmp/t", RootKind::Directory, &items).ok().unwrap();
    assert_eq!(entries.len(), 3);
    assert_eq!(skipped, 1);
}

#[test]
fn unreadable_entries_are_counted() {
    let mut items = tree();
    items.insert(1, WalkItem::Unreadable);
    items.push(WalkItem::Symlink);
    let (entries, skipped) = walk_source("/tmp/t", RootKind::Directory, &items).ok().unwrap();
    assert_eq!(entries.len(), 3);
    assert_eq!(skipped, 2);
}

#[test]
fn empty_dir_returns_zero() {
    let (entries, skipped) =
        walk_source("/tmp/t", RootKind::Directory, &vec![WalkItem::Directory]).ok().unwrap();
    assert_eq!(entries.len(), 0);
    assert_eq!(skipped, 0);
}

#[test]
fn nonexistent_path_errors() {
    let err = walk_source("/tmp/kip_definitely_not_real", RootKind::Missing, &Vec::new()).err().unwrap();
    assert!(matches!(err, ScanError::SourcePathNotExists(p) if p == "/tmp/kip_definitely_not_real"));
}

#[test]
fn file_not_dir_errors() {
    let err = walk_source("/tmp/afile.txt", RootKind::NotDirectory, &Vec::new()).err().unwrap();
    assert!(matches!(err, ScanError::SourcePathNotDir(_)));
}

fn entries_of(items: &Vec<WalkItem>) -> Vec<FileEntry> {
    walk_source("/src", RootKind::Directory, items).ok().unwrap().0
}

#[test]
fn scan_creates_one_job_per_file_and_destination() {
    let mut store = JobStore::new();
    let src = store.add_location("/src/".to_string(), None, 1).unwrap();
    let d1 = store.add_location("/backup".to_string(), None, 1).unwrap();
    let d2 = store.add_location("/mnt/usb//".to_string(), None, 1).unwrap();
    let intent = store.add_intent(None, src, vec![d1, d2], IntentKind::OneShot, 0, 1).unwrap();

    let root = store.begin_scan(intent, 2).ok().unwrap();
    assert_eq!(root, "/src/");
    assert_eq!(store.intent(intent).unwrap().status, IntentStatus::Scanning);

    let mut items = tree();
    items.push(WalkItem::Symlink);
    let (entries, skipped) = walk_source(&root, RootKind::Directory, &items).ok().unwrap();
    let result = store.finish_scan(intent, &root, &entries, skipped, 3).ok().unwrap();

    assert_eq!(result.files_found, 3);
    assert_eq!(result.total_bytes, 17);
    assert_eq!(result.jobs_created, 6);
    assert_eq!(result.skipped_entries, 1);
    assert_eq!(store.jobs.len(), 6);
    let i = store.intent(intent).unwrap();
    assert_eq!(i.total_files, 6);
    assert_eq!(i.total_bytes, 34);
    assert_eq!(i.status, IntentStatus::Transferring);

    let j = &store.jobs[0];
    assert_eq!(j.source_path, "/src/root.txt");
    assert_eq!(j.dest_path, "/backup/root.txt");
    assert_eq!(j.destination, d1);
    assert_eq!(j.size, 5);
    assert_eq!(j.status, JobStatus::Pending);
    assert_eq!(j.attempts, 0);
    assert_eq!(j.max_attempts, 3);
    let j = &store.jobs[5];
    assert_eq!(j.source_path, "/src/subdir/deep/bottom.txt");
    assert_eq!(j.dest_path, "/mnt/usb/subdir/deep/bottom.txt");
    assert_eq!(j.destination, d2);
    assert!(store.jobs.iter().all(|j| j.intent == intent));
}

#[test]
fn scan_of_empty_tree_completes_the_intent() {
    let mut store = JobStore::new();
    let src = store.add_location("/src".to_string(), None, 1).unwrap();
    let dst = store.add_location("/dst".to_string(), None, 1).unwrap();
    let intent = store.add_intent(None, src, vec![dst], IntentKind::OneShot, 0, 1).unwrap();
    let root = store.begin_scan(intent, 2).ok().unwrap();
    let entries = entries_of(&vec![WalkItem::Directory]);
    let result = store.finish_scan(intent, &root, &entries, 0, 3).ok().unwrap();
    assert_eq!(result.jobs_created, 0);
    assert_eq!(store.intent(intent).unwrap().status, IntentStatus::Complete);
    assert_eq!(store.jobs.len(), 0);
}

#[test]
fn scan_errors_name_what_is_missing() {
    let mut store = JobStore::new();
    assert!(matches!(store.begin_scan(99, 1), Err(ScanError::IntentNotFound(99))));

    let src = store.add_location("/src".to_string(), None, 1).unwrap();
    let intent = store.add_intent(None, 500, vec![src], IntentKind::Sync, 0, 1).unwrap();
    assert!(matches!(store.begin_scan(intent, 2), Err(ScanError::SourceLocationNotFound(500))));

    let intent2 = store.add_intent(None, src, vec![src, 777], IntentKind::OneShot, 0, 1).unwrap();
    let root = store.begin_scan(intent2, 2).ok().unwrap();
    let entries = entries_of(&tree());
    assert!(matches!(
        store.finish_scan(intent2, &root, &entries, 0, 3),
        Err(ScanError::DestLocationNotFound(777))
    ));
    assert_eq!(store.jobs.len(), 0);
    assert!(matches!(store.finish_scan(4242, &root, &entries, 0, 3), Err(ScanError::IntentNotFound(4242))));
}
