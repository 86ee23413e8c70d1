//! Command parsing, debug-buffer decoding, the content hash, and the storage
//! backend's snapshot semantics.
use drink::cli::{parse_command, CliCommand};
use drink::{decode_debug_buffer, StorageBackend};

#[test]
fn verify_cli() {
    assert_eq!(parse_command(b"build"), Some(CliCommand::Build));
    assert_eq!(parse_command(b"b"), Some(CliCommand::Build));
    assert_eq!(parse_command(b"deploy"), Some(CliCommand::Deploy));
    assert_eq!(parse_command(b"d"), Some(CliCommand::Deploy));
    assert_eq!(parse_command(b"call-get"), Some(CliCommand::CallGet));
    assert_eq!(parse_command(b"call-flip"), Some(CliCommand::CallFlip));
    assert_eq!(parse_command(b"exit"), Some(CliCommand::Exit));
    assert_eq!(parse_command(b"e"), Some(CliCommand::Exit));
    assert_eq!(parse_command(b"unknown"), None);
    assert_eq!(parse_command(b""), None);
}

#[test]
fn decoding_splits_lines_and_drops_empty_ones() {
    assert_eq!(
        decode_debug_buffer(b"hello\nworld\n"),
        vec!["hello".to_string(), "world".to_string()]
    );
    assert_eq!(
        decode_debug_buffer(b"\n\na\n\nb"),
        vec!["a".to_string(), "b".to_string()]
    );
    assert_eq!(decode_debug_buffer(b""), Vec::<String>::new());
    assert_eq!(decode_debug_buffer(b"\n\n"), Vec::<String>::new());
    assert_eq!(decode_debug_buffer(b"tail"), vec!["tail".to_string()]);
}

#[test]
fn content_hash_is_deterministic() {
    let a = drink::hashing::content_hash(b"abc");
    let b = drink::hashing::content_hash(b"abc");
    let c = drink::hashing::content_hash(b"abd");
    assert_eq!(a, b);
    assert_ne!(a, c);
}

#[test]
fn snapshots_are_independent_of_the_live_backend() {
    let mut backend = StorageBackend::new();
    backend.set(vec![1], vec![10]);
    backend.set(vec![2], vec![20]);

    let snapshot = backend.as_backend();

    backend.set(vec![1], vec![99]);
    backend.set(vec![3], vec![30]);
    assert_eq!(backend.get(&[1]), Some(vec![99]));
    assert_eq!(snapshot.get(&[1]), Some(vec![10]));

    backend.install(snapshot);
    assert_eq!(backend.get(&[1]), Some(vec![10]));
    assert_eq!(backend.get(&[2]), Some(vec![20]));
    assert_eq!(backend.get(&[3]), None);
    assert!(!backend.contains(&[3]));
}

#[test]
fn commit_all_is_a_clean_no_op() {
    let mut backend = StorageBackend::new();
    backend.set(vec![1], vec![10]);
    assert!(backend.commit_all().is_ok());
    assert_eq!(backend.get(&[1]), Some(vec![10]));
}
