//! Unit tests: the quorum derivation, the option builders, single
//! backends with their decorators, the presence tri-state, and each
//! error the library can surface.

use multiplexedblob_wal::chaos::ChaosOptions;
use multiplexedblob_wal::factory::make_blobstore_enumerable_with_unlink;
use multiplexedblob_wal::factory::make_files_blobstore;
use multiplexedblob_wal::factory::make_multiplexed_wal;
use multiplexedblob_wal::factory::make_packblob;
use multiplexedblob_wal::factory::make_sql_blobstore;
use multiplexedblob_wal::factory::make_sql_blobstore_xdb;
use multiplexedblob_wal::factory::BlobConfig;
use multiplexedblob_wal::factory::ConfigError;
use multiplexedblob_wal::factory::MultiplexedStoreType;
use multiplexedblob_wal::factory::ShardableRemoteDatabaseConfig;
use multiplexedblob_wal::leaf::Leaf;
use multiplexedblob_wal::leaf::PhysicalKind;
use multiplexedblob_wal::multiplex::BuiltStore;
use multiplexedblob_wal::multiplex::MultiplexTimeout;
use multiplexedblob_wal::multiplex::WalMultiplexedBlobstore;
use multiplexedblob_wal::options::BlobstoreOptions;
use multiplexedblob_wal::options::DelayOptions;
use multiplexedblob_wal::options::PackOptions;
use multiplexedblob_wal::options::PutFormat;
use multiplexedblob_wal::options::ReadOnlyStorage;
use multiplexedblob_wal::options::Scuba;
use multiplexedblob_wal::options::ScrubAction;
use multiplexedblob_wal::options::ScrubWriteOnly;
use multiplexedblob_wal::options::ScubaError;
use multiplexedblob_wal::options::ThrottleOptions;
use multiplexedblob_wal::quorum::MultiplexQuorum;
use multiplexedblob_wal::quorum::QuorumError;
use multiplexedblob_wal::types::BlobstoreIsPresent;
use multiplexedblob_wal::types::ErrorKind;
use multiplexedblob_wal::types::OverwriteStatus;
use multiplexedblob_wal::types::PutBehaviour;
use multiplexedblob_wal::types::StoreError;
use multiplexedblob_wal::wal::Wal;

fn options() -> BlobstoreOptions {
    BlobstoreOptions::new(
        ChaosOptions::new(None, None),
        DelayOptions {
            get_mean_micros: None,
            put_mean_micros: None,
        },
        ThrottleOptions {
            read_qps: None,
            write_qps: None,
        },
        PackOptions {
            override_put_format: None,
        },
        None,
    )
}

#[test]
fn quorum_derivation() {
    // Three backends, write quorum two: two negative answers decide
    // absence, so any committed write overlaps any negative quorum.
    let q = MultiplexQuorum::new(3, 2).unwrap();
    assert_eq!(q.write, 2);
    assert_eq!(q.read, 2);
    let q1 = MultiplexQuorum::new(3, 3).unwrap();
    assert_eq!(q1.read, 1);
    assert!(matches!(
        MultiplexQuorum::new(2, 3),
        Err(QuorumError::NotEnoughBlobstores)
    ));
    assert!(matches!(
        MultiplexQuorum::new(2, 0),
        Err(QuorumError::WriteQuorumZero)
    ));
}

#[test]
fn scrub_option_builders() {
    let opts = options().with_scrub_action(Some(ScrubAction::Repair));
    let so = opts.scrub_options.unwrap();
    assert!(matches!(so.scrub_action, ScrubAction::Repair));
    assert!(so.scrub_grace.is_none());
    assert_eq!(so.queue_peek_bound, 7200);

    let opts = opts
        .with_scrub_grace(Some(60))
        .with_scrub_action_on_missing_write_only(ScrubWriteOnly::TreatMissingAsDiscrepancy)
        .with_scrub_queue_peek_bound(120);
    let so = opts.scrub_options.unwrap();
    assert_eq!(so.scrub_grace, Some(60));
    assert!(matches!(
        so.scrub_action_on_missing_write_only,
        ScrubWriteOnly::TreatMissingAsDiscrepancy
    ));
    assert_eq!(so.queue_peek_bound, 120);

    // Without scrubbing configured, the refinements are no-ops.
    let untouched = options().with_scrub_grace(Some(60));
    assert!(untouched.scrub_options.is_none());
    let untouched = options().with_scrub_action(None);
    assert!(untouched.scrub_options.is_none());
}

#[test]
fn scuba_sample_rate_must_be_positive() {
    assert!(Scuba::new_from_raw(None, None, 1).is_ok());
    assert!(matches!(
        Scuba::new_from_raw(None, None, 0),
        Err(ScubaError::ZeroSampleRate)
    ));
    let mut s = Scuba::new(Some(String::from("inner")), None, 10).unwrap();
    assert!(!s.sampled);
    s.sampled();
    assert!(s.sampled);
}

#[test]
fn leaf_put_behaviours() {
    let mut l = Leaf::new(
        PhysicalKind::Files {
            path: String::from("/tmp/x"),
        },
        PutBehaviour::Overwrite,
    );
    let key = b"k".to_vec();
    assert_eq!(
        l.put(&key, &b"v1".to_vec(), None).unwrap(),
        OverwriteStatus::NotChecked
    );
    assert_eq!(
        l.put(&key, &b"v2".to_vec(), Some(PutBehaviour::IfAbsent))
            .unwrap(),
        OverwriteStatus::PreventedOverwrite
    );
    // The prevented put left the first value in place.
    assert_eq!(l.get(&key).unwrap(), Some(b"v1".to_vec()));
    assert_eq!(
        l.put(&key, &b"v3".to_vec(), Some(PutBehaviour::OverwriteAndLog))
            .unwrap(),
        OverwriteStatus::Overwrote
    );
    assert_eq!(l.get(&key).unwrap(), Some(b"v3".to_vec()));
    assert!(matches!(
        l.is_present(&key).unwrap(),
        BlobstoreIsPresent::Present
    ));
    assert!(matches!(
        l.is_present(&b"other".to_vec()).unwrap(),
        BlobstoreIsPresent::Absent
    ));
}

#[test]
fn leaf_decorator_errors() {
    let key = b"k".to_vec();
    // The disabled sentinel rejects everything.
    let mut disabled = Leaf::new(PhysicalKind::Disabled, PutBehaviour::Overwrite);
    assert!(matches!(
        disabled.get(&key),
        Err(StoreError::DisabledByConfig)
    ));
    assert!(matches!(
        disabled.put(&key, &b"v".to_vec(), None),
        Err(StoreError::DisabledByConfig)
    ));
    // The read-only decorator rejects writes but forwards reads.
    let mut ro = Leaf::new(
        PhysicalKind::Files {
            path: String::from("/tmp/x"),
        },
        PutBehaviour::Overwrite,
    );
    ro.read_only = true;
    assert!(matches!(
        ro.put(&key, &b"v".to_vec(), None),
        Err(StoreError::ReadOnlyRejected)
    ));
    assert!(matches!(
        ro.unlink(&key),
        Err(StoreError::ReadOnlyRejected)
    ));
    assert_eq!(ro.get(&key).unwrap(), None);
    // Chaos injects synthetic read and write failures.
    let mut chaotic = Leaf::new(
        PhysicalKind::Files {
            path: String::from("/tmp/x"),
        },
        PutBehaviour::Overwrite,
    );
    chaotic.chaos = ChaosOptions::new(Some(1), Some(1));
    assert!(matches!(
        chaotic.get(&key),
        Err(StoreError::ChaosInjectedRead)
    ));
    assert!(matches!(
        chaotic.put(&key, &b"v".to_vec(), None),
        Err(StoreError::ChaosInjectedWrite)
    ));
    // A zero sampling rate injects nothing.
    let mut quiet = Leaf::new(
        PhysicalKind::Files {
            path: String::from("/tmp/x"),
        },
        PutBehaviour::Overwrite,
    );
    quiet.chaos = ChaosOptions::new(Some(0), Some(0));
    assert_eq!(quiet.get(&key).unwrap(), None);
    // Unlinking a key the backend does not hold is that backend's error.
    let mut plain = Leaf::new(
        PhysicalKind::Files {
            path: String::from("/tmp/x"),
        },
        PutBehaviour::Overwrite,
    );
    assert!(matches!(
        plain.unlink(&key),
        Err(StoreError::UnlinkMissingKey)
    ));
}

#[test]
fn multiplex_error_taxonomy() {
    // All backends erroring on get is fatal.
    let wal = Wal::new();
    let mk = |path: &str| {
        BuiltStore::Leaf(Leaf::new(
            PhysicalKind::Files {
                path: String::from(path),
            },
            PutBehaviour::Overwrite,
        ))
    };
    let mut m = WalMultiplexedBlobstore::new(
        1,
        wal,
        vec![(0, mk("/tmp/a")), (1, mk("/tmp/b"))],
        vec![],
        1,
        None,
        Scuba::new_from_raw(None, None, 1).unwrap(),
    )
    .unwrap();
    m.blobstores[0].timeout_reads = true;
    m.blobstores[1].timeout_reads = true;
    assert!(matches!(
        m.get(&b"k".to_vec()),
        Err(ErrorKind::AllFailed(_))
    ));
    // Presence checks that cannot decide stay advisory.
    m.blobstores[1].timeout_reads = false;
    let pres = m.is_present(&b"k".to_vec()).unwrap();
    match pres {
        BlobstoreIsPresent::ProbablyNotPresent(inner) => match *inner {
            ErrorKind::SomeIsPresentsFailed(errs) => {
                assert_eq!(errs.len(), 1);
                assert_eq!(errs[0].0, 0);
            }
            other => panic!("expected SomeIsPresentsFailed, got {:?}", other),
        },
        other => panic!("expected an advisory answer, got {:?}", other),
    }
    // Fewer acknowledgements than the write quorum fails the put.
    m.blobstores[0].timeout_writes = true;
    m.blobstores[1].timeout_writes = true;
    let err = m.put_with_status(&b"k".to_vec(), &b"v".to_vec()).unwrap_err();
    match err {
        multiplexedblob_wal::types::MultiplexError::Op(ErrorKind::AllFailed(errs)) => {
            assert_eq!(errs.len(), 2);
        }
        other => panic!("expected AllFailed, got {:?}", other),
    }
    m.blobstores[1].timeout_writes = false;
    // One backend short of unanimity with quorum reached still commits.
    assert!(m
        .put_explicit(&b"k".to_vec(), &b"v".to_vec(), PutBehaviour::Overwrite)
        .is_ok());
    // A put needing both backends fails as partial when one errors.
    let wal2 = Wal::new();
    let mut m2 = WalMultiplexedBlobstore::new(
        2,
        wal2,
        vec![(0, mk("/tmp/a")), (1, mk("/tmp/b"))],
        vec![],
        2,
        None,
        Scuba::new_from_raw(None, None, 1).unwrap(),
    )
    .unwrap();
    m2.blobstores[0].timeout_writes = true;
    let err = m2.put_with_status(&b"k".to_vec(), &b"v".to_vec()).unwrap_err();
    match err {
        multiplexedblob_wal::types::MultiplexError::Op(ErrorKind::SomePutsFailed(errs)) => {
            assert_eq!(errs.len(), 1);
            assert_eq!(errs[0].0, 0);
        }
        other => panic!("expected SomePutsFailed, got {:?}", other),
    }
    // An unlink that cannot rescue a failing backend reports it.
    m2.blobstores[0].timeout_writes = false;
    assert!(m2
        .put_explicit(&b"u".to_vec(), &b"v".to_vec(), PutBehaviour::Overwrite)
        .is_ok());
    m2.blobstores[0].timeout_writes = true;
    m2.blobstores[0].timeout_reads = true;
    let err = m2.unlink(&b"u".to_vec()).unwrap_err();
    match err {
        ErrorKind::SomeUnlinksFailed(errs) => {
            assert_eq!(errs.len(), 1);
            assert_eq!(errs[0].0, 0);
        }
        other => panic!("expected SomeUnlinksFailed, got {:?}", other),
    }
}

#[test]
fn factory_physical_dispatch() {
    let opts = options();
    // A file-tree backend.
    let f = make_files_blobstore(
        BlobConfig::Files {
            path: String::from("/tmp/z"),
        },
        &opts,
    )
    .unwrap();
    assert!(matches!(f.kind, PhysicalKind::Files { .. }));
    assert!(matches!(
        make_files_blobstore(BlobConfig::Disabled, &opts),
        Err(ConfigError::NotAFileBlobstore)
    ));
    // Relational backends, sharded and not.
    let s = make_sql_blobstore(
        BlobConfig::Sqlite {
            path: String::from("/tmp/db"),
        },
        ReadOnlyStorage(false),
        &opts,
    )
    .unwrap();
    assert!(matches!(s.kind, PhysicalKind::Sqlite { .. }));
    let s = make_sql_blobstore(
        BlobConfig::Mysql {
            remote: ShardableRemoteDatabaseConfig::Sharded {
                shard_map: String::from("tier"),
                shard_num: 4,
            },
        },
        ReadOnlyStorage(true),
        &opts,
    )
    .unwrap();
    match s.kind {
        PhysicalKind::Mysql {
            ref tier_name,
            shard_count,
        } => {
            assert_eq!(tier_name, "tier");
            assert_eq!(shard_count, Some(4));
        }
        ref other => panic!("expected a relational backend, got {:?}", other),
    }
    assert!(s.read_only);
    assert!(matches!(
        make_sql_blobstore(
            BlobConfig::Files {
                path: String::from("/tmp/z")
            },
            ReadOnlyStorage(false),
            &opts
        ),
        Err(ConfigError::NotAnSqlBlobstore)
    ));
    let x = make_sql_blobstore_xdb(
        String::from("xdb.tier"),
        None,
        ReadOnlyStorage(false),
        PutBehaviour::IfAbsent,
    )
    .unwrap();
    assert!(matches!(x.put_behaviour, PutBehaviour::IfAbsent));
    // Pack wrappers take the configured format, overridable.
    let packed = make_packblob(
        BlobConfig::Pack {
            pack_config: None,
            blobconfig: Box::new(BlobConfig::Files {
                path: String::from("/tmp/p"),
            }),
        },
        ReadOnlyStorage(false),
        &opts,
    )
    .unwrap();
    assert_eq!(packed.pack, Some(PutFormat::Raw));
    assert!(matches!(
        make_packblob(BlobConfig::Disabled, ReadOnlyStorage(false), &opts),
        Err(ConfigError::NotAPackBlob)
    ));
    let enumerable = make_blobstore_enumerable_with_unlink(
        BlobConfig::Files {
            path: String::from("/tmp/e"),
        },
        &opts,
    )
    .unwrap();
    assert!(matches!(enumerable.kind, PhysicalKind::Files { .. }));
    assert!(matches!(
        make_blobstore_enumerable_with_unlink(BlobConfig::Disabled, &opts),
        Err(ConfigError::NotAPhysicalBlobstore)
    ));
}

#[test]
fn factory_rejects_bad_multiplex_configs() {
    let opts = options();
    let children = |n: usize| {
        let mut v = Vec::new();
        for i in 0..n {
            v.push((
                i as u64,
                MultiplexedStoreType::Normal,
                BlobConfig::Files {
                    path: format!("/tmp/{}", i),
                },
            ));
        }
        v
    };
    assert!(matches!(
        make_multiplexed_wal(1, None, None, 1, children(2), 3, &opts),
        Err(ConfigError::InvalidQuorum(QuorumError::NotEnoughBlobstores))
    ));
    assert!(matches!(
        make_multiplexed_wal(1, None, None, 1, children(2), 0, &opts),
        Err(ConfigError::InvalidQuorum(QuorumError::WriteQuorumZero))
    ));
    assert!(matches!(
        make_multiplexed_wal(1, None, None, 0, children(2), 1, &opts),
        Err(ConfigError::InvalidTelemetry(ScubaError::ZeroSampleRate))
    ));
    assert!(make_multiplexed_wal(1, None, None, 1, children(2), 1, &opts).is_ok());
}

#[test]
fn default_timeouts_are_conservative() {
    let t = MultiplexTimeout::default();
    assert_eq!(t.read_ms, 10000);
    assert_eq!(t.write_ms, 15000);
    let t = MultiplexTimeout::new(1, 2);
    assert_eq!((t.read_ms, t.write_ms), (1, 2));
}

#[test]
fn scuba_carries_client_request_info() {
    let mut s = Scuba::new(None, None, 1).unwrap();
    assert!(s.client_request_info.is_none());
    s.add_client_request_info(None);
    assert!(s.client_request_info.is_none());
    s.add_client_request_info(Some(String::from("req-1")));
    assert_eq!(s.client_request_info.as_deref(), Some("req-1"));
    // A missing correlator does not erase a known one.
    s.add_client_request_info(None);
    assert_eq!(s.client_request_info.as_deref(), Some("req-1"));
}
