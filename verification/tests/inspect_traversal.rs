use amari_discovery::inspect::framing::compute_project_hash;
use amari_discovery::inspect::traversal::{bounded_read, is_admissible_path, BoundedOutcome};
use sha2::{Digest, Sha256};
use std::io::Cursor;

#[test]
fn bounded_read_within_both_limits() {
    let data = b"hello";
    let mut cursor = Cursor::new(data.as_ref());
    let result = bounded_read(&mut cursor, 1024, 1024).unwrap();
    assert!(
        matches!(result, BoundedOutcome::Accepted(ref v) if v == b"hello"),
        "small file should be Accepted"
    );
}

#[test]
fn bounded_read_per_file_exceeded_tighter() {
    let data = [0u8; 100];
    let mut cursor = Cursor::new(data.as_ref());
    let result = bounded_read(&mut cursor, 50, 1024).unwrap();
    assert!(
        matches!(result, BoundedOutcome::PerFileExceeded),
        "51 bytes read > per_file_max of 50"
    );
}

#[test]
fn bounded_read_per_file_tighter_than_aggregate() {
    let data = [0u8; 10];
    let mut cursor = Cursor::new(data.as_ref());
    let result = bounded_read(&mut cursor, 5, 1024).unwrap();
    assert!(
        matches!(result, BoundedOutcome::PerFileExceeded),
        "6 bytes read > per_file_max of 5"
    );
}

#[test]
fn bounded_read_aggregate_tighter_than_per_file() {
    let data = [0u8; 100];
    let mut cursor = Cursor::new(data.as_ref());
    let result = bounded_read(&mut cursor, 1024, 10).unwrap();
    match result {
        BoundedOutcome::Accepted(v) => {
            assert_eq!(v.len(), 11);
        }
        BoundedOutcome::PerFileExceeded => {
            panic!("11 bytes should not exceed per_file_max of 1024");
        }
    }
}

#[test]
fn bounded_read_stale_small_metadata_aggregate_exhausted() {
    let data = [0u8; 200];
    let mut cursor = Cursor::new(data.as_ref());
    let result = bounded_read(&mut cursor, 1024, 100).unwrap();
    match result {
        BoundedOutcome::Accepted(v) => {
            assert_eq!(v.len(), 101);
        }
        _ => panic!("expected Accepted with partial content (stale metadata)"),
    }
}

#[test]
fn bounded_read_zero_per_file_max() {
    let data = [0u8; 1];
    let mut cursor = Cursor::new(data.as_ref());
    let result = bounded_read(&mut cursor, 0, 1024).unwrap();
    assert!(
        matches!(result, BoundedOutcome::PerFileExceeded),
        "1 byte > 0 per_file_max"
    );
}

#[test]
fn bounded_read_empty_file() {
    let data: [u8; 0] = [];
    let mut cursor = Cursor::new(data.as_ref());
    let result = bounded_read(&mut cursor, 1024, 1024).unwrap();
    assert!(
        matches!(result, BoundedOutcome::Accepted(ref v) if v.is_empty()),
        "empty file should be Accepted with zero bytes"
    );
}

#[test]
fn bounded_read_exact_per_file_max() {
    let data = [b'x'; 10];
    let mut cursor = Cursor::new(data.as_ref());
    let result = bounded_read(&mut cursor, 10, 1024).unwrap();
    assert!(
        matches!(result, BoundedOutcome::Accepted(ref v) if v.len() == 10),
        "exactly at per_file_max should be Accepted"
    );
}

#[test]
fn bounded_read_one_byte_over_per_file_max() {
    let data = [b'x'; 11];
    let mut cursor = Cursor::new(data.as_ref());
    let result = bounded_read(&mut cursor, 10, 1024).unwrap();
    assert!(
        matches!(result, BoundedOutcome::PerFileExceeded),
        "11 bytes > 10 per_file_max"
    );
}

#[test]
fn bounded_read_both_zero_limits() {
    let data = [0u8; 1];
    let mut cursor = Cursor::new(data.as_ref());
    let result = bounded_read(&mut cursor, 0, 0).unwrap();
    assert!(
        matches!(result, BoundedOutcome::PerFileExceeded),
        "1 byte > 0 per_file_max when both are zero"
    );
}

#[test]
fn bounded_read_zero_remaining_aggregate_large_per_file() {
    let data = [0u8; 2];
    let mut cursor = Cursor::new(data.as_ref());
    let result = bounded_read(&mut cursor, 1024, 0).unwrap();
    match result {
        BoundedOutcome::Accepted(v) => {
            assert_eq!(v.len(), 1);
        }
        BoundedOutcome::PerFileExceeded => {
            panic!("1 byte should not exceed per_file_max of 1024");
        }
    }
}

#[test]
fn empty_project_hash_is_sha256_of_empty_input() {
    let empty_hash = compute_project_hash(&[]);
    let expected = hex::encode(Sha256::digest(b""));
    assert_eq!(empty_hash, expected);
    assert!(!empty_hash.is_empty());
    let empty_hash2 = compute_project_hash(&[]);
    assert_eq!(empty_hash, empty_hash2);
}

#[test]
fn admissible_paths_avoid_pruned_and_secret_components() {
    assert!(is_admissible_path("src/lib.rs"));
    assert!(is_admissible_path("Cargo.toml"));
    assert!(!is_admissible_path("docs/target"));
    assert!(!is_admissible_path("src/.git"));
    assert!(is_admissible_path("docs/targets.md"));
    assert!(!is_admissible_path("target/debug/a.rs"));
    assert!(!is_admissible_path("a/node_modules/x.ts"));
    assert!(!is_admissible_path(".git/config"));
    assert!(!is_admissible_path("conf/.env.local"));
    assert!(!is_admissible_path(".envrc/a.rs"));
}
