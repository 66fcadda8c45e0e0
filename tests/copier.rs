use kip::copier::{
    classify_error, map_io_error, resolution_options, CopyError, CopyPipeline, IoFailure,
    PROGRESS_INTERVAL,
};
use kip::hashing::{hash_bytes, hash_chunks, ContentHasher, CHUNK_SIZE};
use kip::models::ErrorKind;

#[test]
fn error_classification() {
    assert!(CopyError::IoError("tmp".into()).is_retryable());
    assert!(!CopyError::SourceNotFound("x".into()).is_retryable());
    assert!(!CopyError::PermissionDenied("x".into()).is_retryable());
    assert!(!CopyError::DiskFull("x".into()).is_retryable());
    assert!(!CopyError::HashMismatch { source_hash: "a".into(), dest_hash: "b".into() }.is_retryable());
}

#[test]
fn io_failures_map_to_copy_errors() {
    assert!(matches!(map_io_error(IoFailure::NotFound, "/p", "gone"), CopyError::SourceNotFound(p) if p == "/p"));
    assert!(matches!(map_io_error(IoFailure::PermissionDenied, "/p", "no"), CopyError::PermissionDenied(p) if p == "/p"));
    assert!(matches!(map_io_error(IoFailure::StorageFull, "/p", "full"), CopyError::DiskFull(p) if p == "/p"));
    let e = map_io_error(IoFailure::Other, "/p", "broken pipe");
    assert!(matches!(&e, CopyError::IoError(m) if m == "/p: broken pipe"));
    assert!(e.is_retryable());
    assert!(!map_io_error(IoFailure::NotFound, "/p", "x").is_retryable());
    assert!(!map_io_error(IoFailure::PermissionDenied, "/p", "x").is_retryable());
    assert!(!map_io_error(IoFailure::StorageFull, "/p", "x").is_retryable());
}

#[test]
fn hash_file_not_found() {
    let err = map_io_error(IoFailure::NotFound, "/tmp/kip_definitely_not_real.txt", "");
    assert!(matches!(err, CopyError::SourceNotFound(_)));
}

#[test]
fn errors_classify_to_review_kinds() {
    assert_eq!(classify_error(&CopyError::SourceNotFound("x".into())), ErrorKind::SourceMissing);
    assert_eq!(classify_error(&CopyError::PermissionDenied("x".into())), ErrorKind::PermissionDenied);
    assert_eq!(classify_error(&CopyError::DiskFull("x".into())), ErrorKind::DiskFull);
    assert_eq!(classify_error(&CopyError::IoError("x".into())), ErrorKind::IoError);
    assert_eq!(
        classify_error(&CopyError::HashMismatch { source_hash: "a".into(), dest_hash: "b".into() }),
        ErrorKind::HashMismatch
    );
    assert_eq!(classify_error(&CopyError::JobNotFound(7)), ErrorKind::Internal);
    assert_eq!(classify_error(&CopyError::DbError("x".into())), ErrorKind::Internal);
}

#[test]
fn resolution_options_per_kind() {
    assert_eq!(resolution_options(ErrorKind::SourceMissing), vec!["skip", "rescan"]);
    assert_eq!(resolution_options(ErrorKind::PermissionDenied), vec!["retry", "skip"]);
    assert_eq!(resolution_options(ErrorKind::DiskFull), vec!["retry", "skip"]);
    assert_eq!(resolution_options(ErrorKind::IoError), vec!["retry", "skip"]);
    assert_eq!(resolution_options(ErrorKind::HashMismatch), vec!["retry", "skip", "accept"]);
    assert_eq!(resolution_options(ErrorKind::Internal), vec!["skip"]);
    assert_eq!(resolution_options(ErrorKind::Conflict), vec!["skip"]);
}

#[test]
fn error_messages() {
    assert_eq!(CopyError::JobNotFound(42).message(), "job not found: 42");
    assert_eq!(CopyError::JobNotFound(0).message(), "job not found: 0");
    assert_eq!(CopyError::SourceNotFound("/a".into()).message(), "source file not found: /a");
    assert_eq!(CopyError::IoError("/a: boom".into()).message(), "I/O error: /a: boom");
    assert_eq!(
        CopyError::HashMismatch { source_hash: "ab".into(), dest_hash: "cd".into() }.message(),
        "hash mismatch: source=ab, dest=cd"
    );
    assert_eq!(CopyError::DbError("down".into()).message(), "database error: down");
}

#[test]
fn copy_and_verify_small_file() {
    let data = b"hello world";
    let mut pipeline = CopyPipeline::new();
    for chunk in data.chunks(CHUNK_SIZE) {
        pipeline.absorb(chunk);
    }
    let mut dest = ContentHasher::new();
    dest.update(data);
    let result = pipeline.finish(dest.finalize_hex()).ok().unwrap();
    assert_eq!(result.source_hash, result.dest_hash);
    assert_eq!(result.bytes_copied, 11);
    assert!(result.verified);
    assert_eq!(result.source_hash, blake3::hash(data).to_hex().to_string());
}

#[test]
fn corrupted_destination_is_a_hash_mismatch() {
    let mut pipeline = CopyPipeline::new();
    pipeline.absorb(b"hello world");
    let landed = hash_bytes(b"hello w0rld");
    match pipeline.finish(landed.clone()) {
        Err(CopyError::HashMismatch { source_hash, dest_hash }) => {
            assert_eq!(source_hash, hash_bytes(b"hello world"));
            assert_eq!(dest_hash, landed);
        }
        _ => panic!("expected a hash mismatch"),
    }
}

#[test]
fn progress_falls_due_every_interval() {
    let mut pipeline = CopyPipeline::new();
    let chunk = vec![1u8; 10];
    let mut reports = Vec::new();
    for _ in 0..(2 * PROGRESS_INTERVAL + 1) {
        if let Some(n) = pipeline.absorb(&chunk) {
            reports.push(n);
        }
    }
    assert_eq!(pipeline.absorb(&[]), None);
    assert_eq!(reports, vec![40, 80]);
    assert_eq!(pipeline.bytes_copied(), 90);
}

#[test]
fn hash_empty_file() {
    let hash = ContentHasher::new().finalize_hex();
    assert_eq!(hash.len(), 64);
    assert_eq!(hash, blake3::hash(b"").to_hex().to_string());
}

#[test]
fn hash_multichunk_file() {
    let data = vec![42u8; CHUNK_SIZE * 3 + 1000];
    let mut hasher = ContentHasher::new();
    for chunk in data.chunks(CHUNK_SIZE) {
        hasher.update(chunk);
    }
    let hash = hasher.finalize_hex();
    let expected = blake3::hash(&data).to_hex().to_string();
    assert_eq!(hash, expected);
    assert_eq!(hash_bytes(&data), expected);
}

#[test]
fn chunk_boundaries_do_not_change_the_digest() {
    let data: Vec<u8> = (0..5000u32).map(|i| (i % 251) as u8).collect();
    let uneven = vec![data[..1].to_vec(), data[1..1777].to_vec(), Vec::new(), data[1777..].to_vec()];
    assert_eq!(hash_chunks(&uneven), hash_bytes(&data));
    assert_ne!(hash_bytes(&data), hash_bytes(&data[1..]));
}
