//! End-to-end scenarios over the quorum multiplexer, built through the
//! factory with three file-tree backends and a write quorum of two.

use multiplexedblob_wal::chaos::ChaosOptions;
use multiplexedblob_wal::factory::make_blobstore;
use multiplexedblob_wal::factory::BlobConfig;
use multiplexedblob_wal::factory::MultiplexedStoreType;
use multiplexedblob_wal::multiplex::BuiltStore;
use multiplexedblob_wal::multiplex::WalMultiplexedBlobstore;
use multiplexedblob_wal::options::BlobstoreOptions;
use multiplexedblob_wal::options::DelayOptions;
use multiplexedblob_wal::options::PackOptions;
use multiplexedblob_wal::options::ReadOnlyStorage;
use multiplexedblob_wal::options::ScrubAction;
use multiplexedblob_wal::options::ThrottleOptions;
use multiplexedblob_wal::types::ErrorKind;
use multiplexedblob_wal::types::StoreError;

fn no_chaos() -> ChaosOptions {
    ChaosOptions::new(None, None)
}

fn plain_options(chaos: ChaosOptions) -> BlobstoreOptions {
    BlobstoreOptions::new(
        chaos,
        DelayOptions {
            get_mean_micros: None,
            put_mean_micros: None,
        },
        ThrottleOptions {
            read_qps: None,
            write_qps: None,
        },
        PackOptions {
            override_put_format: None,
        },
        None,
    )
}

fn three_files_config(multiplex_id: u32, write_quorum: usize) -> BlobConfig {
    BlobConfig::MultiplexedWal {
        multiplex_id,
        blobstores: vec![
            (
                0,
                MultiplexedStoreType::Normal,
                BlobConfig::Files {
                    path: String::from("/tmp/a"),
                },
            ),
            (
                1,
                MultiplexedStoreType::Normal,
                BlobConfig::Files {
                    path: String::from("/tmp/b"),
                },
            ),
            (
                2,
                MultiplexedStoreType::Normal,
                BlobConfig::Files {
                    path: String::from("/tmp/c"),
                },
            ),
        ],
        write_quorum,
        queue_db: String::from("walqueue"),
        inner_blobstores_scuba_table: None,
        multiplex_scuba_table: None,
        scuba_sample_rate: 1,
    }
}

fn build_mux(config: BlobConfig, options: &BlobstoreOptions) -> WalMultiplexedBlobstore {
    let store = make_blobstore(config, ReadOnlyStorage(false), options).unwrap();
    match store {
        BuiltStore::Multiplex(m) => *m,
        BuiltStore::Leaf(_) => panic!("expected a multiplexer"),
    }
}

#[test]
fn simple_put_get_round_trip() {
    // Three file-tree backends, write quorum 2, read quorum 2. Every
    // backend acks the put; the get returns the value; the write-ahead
    // log is empty afterwards.
    let opts = plain_options(no_chaos());
    let mut m = build_mux(three_files_config(7, 2), &opts);
    let key = b"a/b".to_vec();
    let value = b"hello".to_vec();
    assert!(m.put(&key, &value).is_ok());
    let got = m.get(&key).unwrap();
    assert_eq!(got, Some(b"hello".to_vec()));
    assert_eq!(m.wal_queue.len(), 0);
}

#[test]
fn partial_put_leaves_wal_entry_for_healer() {
    // Chaos on the first backend with one-in-one write failure: the
    // other two backends ack, the put commits, and the intent entry
    // stays behind for the healer. A subsequent get still serves the
    // value from a healthy backend.
    let opts = plain_options(ChaosOptions::new(None, Some(1)));
    let mut m = build_mux(three_files_config(42, 2), &opts);
    let key = b"k".to_vec();
    let value = b"v".to_vec();
    assert!(m.put(&key, &value).is_ok());
    assert_eq!(m.wal_queue.len(), 1);
    assert_eq!(m.wal_queue.entries[0].key, b"k".to_vec());
    assert_eq!(m.wal_queue.entries[0].multiplex_id, 42);
    let got = m.get(&key).unwrap();
    assert_eq!(got, Some(b"v".to_vec()));
}

#[test]
fn absence_decided_by_negative_quorum() {
    // Backend 0 errors, backends 1 and 2 answer "absent": the negative
    // quorum of two decides absence.
    let opts = plain_options(no_chaos());
    let mut m = build_mux(three_files_config(7, 2), &opts);
    m.blobstores[0].timeout_reads = true;
    let got = m.get(&b"missing".to_vec()).unwrap();
    assert_eq!(got, None);
}

#[test]
fn ambiguous_absence_fails_with_error_map() {
    // Backend 0 errors, backend 1 answers "absent", backend 2 errors:
    // one negative answer short of the read quorum, so the get fails
    // with the two failing backends recorded.
    let opts = plain_options(no_chaos());
    let mut m = build_mux(three_files_config(7, 2), &opts);
    m.blobstores[0].timeout_reads = true;
    m.blobstores[2].timeout_reads = true;
    let err = m.get(&b"k".to_vec()).unwrap_err();
    match err {
        ErrorKind::SomeGetsFailed(errs) => {
            assert_eq!(errs.len(), 2);
            assert_eq!(errs[0].0, 0);
            assert_eq!(errs[1].0, 2);
            assert!(matches!(errs[0].1, StoreError::DeadlineExceeded));
            assert!(matches!(errs[1].1, StoreError::DeadlineExceeded));
        }
        other => panic!("expected SomeGetsFailed, got {:?}", other),
    }
}

#[test]
fn unlink_of_partially_written_key() {
    // The put committed on backends 0 and 1 only (backend 2's writes
    // were cut off). Unlink deletes from 0 and 1; backend 2 reports the
    // key missing and is rescued by the presence check; the unlink
    // succeeds and the key is absent everywhere.
    let opts = plain_options(no_chaos());
    let mut m = build_mux(three_files_config(7, 2), &opts);
    let key = b"k".to_vec();
    m.blobstores[2].timeout_writes = true;
    assert!(m.put(&key, &b"v".to_vec()).is_ok());
    m.blobstores[2].timeout_writes = false;
    assert!(m.unlink(&key).is_ok());
    let got = m.get(&key).unwrap();
    assert_eq!(got, None);
}

#[test]
fn scrub_repairs_lagging_backend() {
    // Repair mode, three normal backends holding (v, v, nothing): the
    // scrubbed read returns the majority value and writes it back to
    // the lagging backend.
    let opts = plain_options(no_chaos()).with_scrub_action(Some(ScrubAction::Repair));
    let mut m = build_mux(three_files_config(7, 2), &opts);
    let key = b"x".to_vec();
    m.blobstores[2].timeout_writes = true;
    assert!(m.put(&key, &b"v".to_vec()).is_ok());
    m.blobstores[2].timeout_writes = false;
    // Before the scrub, the third backend lacks the key.
    match &m.blobstores[2].store {
        BuiltStore::Leaf(l) => assert!(l.kv.get(&key).is_none()),
        BuiltStore::Multiplex(_) => panic!("expected a single backend"),
    }
    let got = m.scrub_get(&key).unwrap();
    assert_eq!(got, Some(b"v".to_vec()));
    match &m.blobstores[2].store {
        BuiltStore::Leaf(l) => assert_eq!(l.kv.get(&key), Some(&b"v".to_vec())),
        BuiltStore::Multiplex(_) => panic!("expected a single backend"),
    }
}

#[test]
fn wal_append_failure_fails_put_and_writes_nothing() {
    // When the write-ahead log refuses the intent, the put fails
    // outright and no backend observes the key.
    let opts = plain_options(no_chaos());
    let mut m = build_mux(three_files_config(7, 2), &opts);
    m.wal_queue.fail_appends = true;
    let key = b"k".to_vec();
    let err = m.put(&key, &b"v".to_vec()).unwrap_err();
    assert!(matches!(
        err,
        multiplexedblob_wal::types::MultiplexError::WalAppendFailed
    ));
    for child in &m.blobstores {
        match &child.store {
            BuiltStore::Leaf(l) => assert!(l.kv.get(&key).is_none()),
            BuiltStore::Multiplex(_) => panic!("expected a single backend"),
        }
    }
    assert_eq!(m.wal_queue.len(), 0);
}

#[test]
fn nested_multiplex_round_trip() {
    // A multiplex may wrap a multiplex: the inner one stands in a
    // backend's place.
    let inner = three_files_config(8, 2);
    let config = BlobConfig::MultiplexedWal {
        multiplex_id: 9,
        blobstores: vec![
            (
                0,
                MultiplexedStoreType::Normal,
                BlobConfig::Files {
                    path: String::from("/tmp/top"),
                },
            ),
            (1, MultiplexedStoreType::Normal, inner),
        ],
        write_quorum: 2,
        queue_db: String::from("walqueue-top"),
        inner_blobstores_scuba_table: None,
        multiplex_scuba_table: None,
        scuba_sample_rate: 1,
    };
    let opts = plain_options(no_chaos());
    let mut m = build_mux(config, &opts);
    let key = b"deep".to_vec();
    assert!(m.put(&key, &b"value".to_vec()).is_ok());
    assert_eq!(m.get(&key).unwrap(), Some(b"value".to_vec()));
}

#[test]
fn write_only_backends_join_after_quorum() {
    // A write-only backend takes the put but is never read.
    let config = BlobConfig::MultiplexedWal {
        multiplex_id: 5,
        blobstores: vec![
            (
                0,
                MultiplexedStoreType::Normal,
                BlobConfig::Files {
                    path: String::from("/tmp/n0"),
                },
            ),
            (
                1,
                MultiplexedStoreType::WriteOnly,
                BlobConfig::Files {
                    path: String::from("/tmp/w0"),
                },
            ),
        ],
        write_quorum: 1,
        queue_db: String::from("walqueue"),
        inner_blobstores_scuba_table: None,
        multiplex_scuba_table: None,
        scuba_sample_rate: 1,
    };
    let opts = plain_options(no_chaos());
    let mut m = build_mux(config, &opts);
    assert_eq!(m.blobstores.len(), 1);
    assert_eq!(m.write_only_blobstores.len(), 1);
    let key = b"k".to_vec();
    assert!(m.put(&key, &b"v".to_vec()).is_ok());
    match &m.write_only_blobstores[0].store {
        BuiltStore::Leaf(l) => assert_eq!(l.kv.get(&key), Some(&b"v".to_vec())),
        BuiltStore::Multiplex(_) => panic!("expected a single backend"),
    }
    assert_eq!(m.wal_queue.len(), 0);
}

#[test]
fn chaos_lands_on_exactly_one_backend() {
    // With chaos configured and three normal backends, exactly one
    // backend is chaotic after construction.
    let opts = plain_options(ChaosOptions::new(Some(2), Some(3)));
    let m = build_mux(three_files_config(7, 2), &opts);
    let mut chaotic = 0;
    for child in &m.blobstores {
        match &child.store {
            BuiltStore::Leaf(l) => {
                if l.chaos.error_sample_read.is_some() || l.chaos.error_sample_write.is_some() {
                    chaotic += 1;
                }
            }
            BuiltStore::Multiplex(_) => panic!("expected a single backend"),
        }
    }
    assert_eq!(chaotic, 1);
    match &m.blobstores[0].store {
        BuiltStore::Leaf(l) => {
            assert_eq!(l.chaos.error_sample_read, Some(2));
            assert_eq!(l.chaos.error_sample_write, Some(3));
        }
        BuiltStore::Multiplex(_) => panic!("expected a single backend"),
    }
}

#[test]
fn teardown_grace_decision() {
    // Tearing down while backend operations are in flight must pause
    // for the grace period; with none in flight it need not.
    let opts = plain_options(no_chaos());
    let mut m = build_mux(three_files_config(7, 2), &opts);
    assert!(!m.teardown_delay_needed());
    m.inflight_ops_counter = 1;
    assert!(m.teardown_delay_needed());
    assert_eq!(multiplexedblob_wal::multiplex::TEARDOWN_GRACE_SECONDS, 5);
}

#[test]
fn read_disabled_backend_counts_toward_nothing() {
    // A backend disabled for reads is skipped: it counts neither toward
    // the negative quorum nor toward failures.
    let opts = plain_options(no_chaos());
    let mut m = build_mux(three_files_config(7, 2), &opts);
    m.blobstores[0].reads_disabled = true;
    // Two remaining backends answer "absent": that still reaches the
    // negative quorum of two.
    assert_eq!(m.get(&b"missing".to_vec()).unwrap(), None);
    // With only one backend left, the negative quorum shrinks to what
    // was actually consulted.
    m.blobstores[1].reads_disabled = true;
    assert_eq!(m.get(&b"missing".to_vec()).unwrap(), None);
}

#[test]
fn nested_multiplex_failure_surfaces_as_inner_error() {
    // A backend that is itself a multiplexer reports its own failure
    // through the outer error map.
    let inner = three_files_config(8, 2);
    let config = BlobConfig::MultiplexedWal {
        multiplex_id: 9,
        blobstores: vec![(5, MultiplexedStoreType::Normal, inner)],
        write_quorum: 1,
        queue_db: String::from("walqueue-top"),
        inner_blobstores_scuba_table: None,
        multiplex_scuba_table: None,
        scuba_sample_rate: 1,
    };
    let opts = plain_options(no_chaos());
    let mut m = build_mux(config, &opts);
    match &mut m.blobstores[0].store {
        BuiltStore::Multiplex(inner_m) => inner_m.wal_queue.fail_appends = true,
        BuiltStore::Leaf(_) => panic!("expected a nested multiplexer"),
    }
    let err = m
        .put_with_status(&b"k".to_vec(), &b"v".to_vec())
        .unwrap_err();
    match err {
        multiplexedblob_wal::types::MultiplexError::Op(ErrorKind::AllFailed(errs)) => {
            assert_eq!(errs.len(), 1);
            assert_eq!(errs[0].0, 5);
            assert!(matches!(errs[0].1, StoreError::Inner(_)));
        }
        other => panic!("expected AllFailed with an inner error, got {:?}", other),
    }
}
