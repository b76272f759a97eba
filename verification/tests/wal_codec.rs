//! The write-ahead-log entry layout: serialization, parsing, and the
//! queue the multiplexer appends to.

use multiplexedblob_wal::wal::decode_wal_entry;
use multiplexedblob_wal::wal::encode_wal_entry;
use multiplexedblob_wal::wal::Wal;
use multiplexedblob_wal::wal::WalDecodeError;
use multiplexedblob_wal::wal::WalEntry;
use multiplexedblob_wal::wal::WalError;

#[test]
fn wal_entry_round_trip() {
    let e = WalEntry::new(b"a/b".to_vec(), 42, 7, 5);
    let bytes = encode_wal_entry(&e);
    let d = decode_wal_entry(&bytes).unwrap();
    assert_eq!(d.key, b"a/b".to_vec());
    assert_eq!(d.multiplex_id, 42);
    assert_eq!(d.timestamp, 7);
    assert_eq!(d.blob_size, 5);
}

#[test]
fn wal_entry_round_trip_negative_timestamp() {
    let e = WalEntry::new(b"".to_vec(), 0, -3, u64::MAX);
    let bytes = encode_wal_entry(&e);
    let d = decode_wal_entry(&bytes).unwrap();
    assert_eq!(d.key, b"".to_vec());
    assert_eq!(d.multiplex_id, 0);
    assert_eq!(d.timestamp, -3);
    assert_eq!(d.blob_size, u64::MAX);
}

#[test]
fn wal_entry_exact_layout() {
    // (u32 multiplex id, u64 key length, key bytes, i64 timestamp,
    // u64 blob size), all little-endian.
    let e = WalEntry::new(vec![0xaa, 0xbb], 1, 2, 3);
    let bytes = encode_wal_entry(&e);
    let expected: Vec<u8> = vec![
        1, 0, 0, 0, // multiplex id
        2, 0, 0, 0, 0, 0, 0, 0, // key length
        0xaa, 0xbb, // key
        2, 0, 0, 0, 0, 0, 0, 0, // timestamp
        3, 0, 0, 0, 0, 0, 0, 0, // blob size
    ];
    assert_eq!(bytes, expected);
}

#[test]
fn wal_decode_rejects_truncated_input() {
    let short: Vec<u8> = vec![0; 27];
    assert!(matches!(
        decode_wal_entry(&short),
        Err(WalDecodeError::Truncated)
    ));
}

#[test]
fn wal_decode_rejects_length_mismatch() {
    let e = WalEntry::new(b"abc".to_vec(), 1, 1, 1);
    let mut bytes = encode_wal_entry(&e);
    bytes.push(0);
    assert!(matches!(
        decode_wal_entry(&bytes),
        Err(WalDecodeError::LengthMismatch)
    ));
}

#[test]
fn wal_queue_append_and_delete() {
    let mut w = Wal::new();
    assert_eq!(w.len(), 0);
    assert!(w.log(WalEntry::new(b"k".to_vec(), 1, 0, 4)).is_ok());
    assert!(w.log(WalEntry::new(b"k2".to_vec(), 1, 1, 4)).is_ok());
    assert_eq!(w.len(), 2);
    assert!(w.has_entry_for(1, &b"k".to_vec()));
    assert!(!w.has_entry_for(2, &b"k".to_vec()));
    let doomed = WalEntry::new(b"k".to_vec(), 1, 0, 4);
    w.delete_by_key(&doomed);
    assert_eq!(w.len(), 1);
    assert!(!w.has_entry_for(1, &b"k".to_vec()));
    assert!(w.has_entry_for(1, &b"k2".to_vec()));
}

#[test]
fn wal_queue_refuses_appends_when_failing() {
    let mut w = Wal::new();
    w.fail_appends = true;
    let r = w.log(WalEntry::new(b"k".to_vec(), 1, 0, 4));
    assert!(matches!(r, Err(WalError::AppendRefused)));
    assert_eq!(w.len(), 0);
}

#[test]
fn wal_read_next_batch_filters_by_multiplex_and_age() {
    let mut w = Wal::new();
    assert!(w.log(WalEntry::new(b"old".to_vec(), 1, 0, 4)).is_ok());
    assert!(w.log(WalEntry::new(b"other".to_vec(), 2, 1, 4)).is_ok());
    assert!(w.log(WalEntry::new(b"young".to_vec(), 1, 9, 4)).is_ok());
    let batch = w.read_next_batch(1, 5);
    assert_eq!(batch.len(), 1);
    assert_eq!(batch[0].key, b"old".to_vec());
    assert_eq!(batch[0].timestamp, 0);
}
