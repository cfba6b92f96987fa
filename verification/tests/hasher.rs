use seer::hasher::{
    build_identity_message, compute_file_hash, head_sample_length, tail_sample_length,
    SAMPLE_BYTES, TAIL_THRESHOLD,
};

#[test]
fn test_hash_of_small_file() {
    let hash = compute_file_hash(3, 0, &b"abc".to_vec(), &vec![]);
    assert_eq!(hash, "a1d3315f3894150352e4acdfee4e9ba46e66956d0e359c5545638cd9d954f3f3");
    assert_eq!(hash.len(), 64);
    assert!(hash.chars().all(|c| c.is_ascii_digit() || ('a'..='f').contains(&c)));
}

#[test]
fn test_hash_of_empty_file() {
    let hash = compute_file_hash(0, 0, &vec![], &vec![]);
    assert_eq!(hash, "374708fff7719dd5979ec875d56cd2286f6d3cf7ec317a3b25632aab28ec37bb");
}

#[test]
fn test_hash_of_large_file_uses_tail() {
    let head: Vec<u8> = (0..8192u32).map(|i| (i % 256) as u8).collect();
    let tail = vec![7u8; 8192];
    let hash = compute_file_hash(20000, 1_700_000_000, &head, &tail);
    assert_eq!(hash, "736931b06c6965c81db92c7df2c96935f23816cbeb3ff5c2e18dfb6e10e36180");
}

#[test]
fn test_hash_is_stable_and_sensitive() {
    let head = b"abc".to_vec();
    let first = compute_file_hash(3, 0, &head, &vec![]);
    let second = compute_file_hash(3, 0, &head, &vec![]);
    assert_eq!(first, second);
    assert_eq!(compute_file_hash(3, 1, &head, &vec![]), "20d01987b00ba0fa8e8e446f986927c4b14f81fd2c45bc1d15d2fc05350dab7d");
    assert_ne!(first, compute_file_hash(3, 1, &head, &vec![]));
    assert_ne!(first, compute_file_hash(4, 0, &head, &vec![]));
    assert_ne!(first, compute_file_hash(3, 0, &b"abd".to_vec(), &vec![]));
    assert_ne!(first, compute_file_hash(3, 0, &head, &vec![0]));
}

#[test]
fn test_identity_message_layout() {
    let message = build_identity_message(0x0102, 0x0A0B0C0D0E0F1011, &vec![0xAA], &vec![0xBB, 0xCC]);
    assert_eq!(
        message,
        vec![
            0x02, 0x01, 0, 0, 0, 0, 0, 0, 0x11, 0x10, 0x0F, 0x0E, 0x0D, 0x0C, 0x0B, 0x0A, 0xAA,
            0xBB, 0xCC
        ]
    );
    let message = build_identity_message(u64::MAX, 0, &vec![], &vec![]);
    assert_eq!(message, [vec![0xFF; 8], vec![0; 8]].concat());
}

#[test]
fn test_sample_lengths() {
    assert_eq!((SAMPLE_BYTES, TAIL_THRESHOLD), (8192, 16384));
    assert_eq!(head_sample_length(0), 0);
    assert_eq!(head_sample_length(8191), 8191);
    assert_eq!(head_sample_length(8192), 8192);
    assert_eq!(head_sample_length(u64::MAX), 8192);
    assert_eq!(tail_sample_length(16384), 0);
    assert_eq!(tail_sample_length(16385), 8192);
    assert_eq!(tail_sample_length(0), 0);
}
