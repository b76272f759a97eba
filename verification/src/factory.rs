//! The factory: interprets a recursive configuration tree into a
//! ready-to-use blob store, applying the standard decorator stack exactly
//! once around every backend. A multiplex may wrap a multiplex; within a
//! multiplex, chaos is applied to only the first inner backend.

use vstd::prelude::*;
use crate::chaos::ChaosOptions;
use crate::leaf::Leaf;
use crate::leaf::LeafView;
use crate::leaf::PhysicalKind;
use crate::leaf::PhysicalKindView;
use crate::multiplex::BuiltStore;
use crate::multiplex::MultiplexTimeout;
use crate::multiplex::MuxView;
use crate::multiplex::StoreView;
use crate::multiplex::TimedStoreView;
use crate::multiplex::WalMultiplexedBlobstore;
use crate::multiplex::store_repr_wf;
use crate::options::BlobstoreOptions;
use crate::options::PackConfig;
use crate::options::PutFormat;
use crate::options::ReadOnlyStorage;
use crate::options::Scuba;
use crate::options::ScubaError;
use crate::options::ScubaView;
use crate::options::ScrubAction;
use crate::options::option_string_view;
use crate::quorum::MultiplexQuorum;
use crate::quorum::QuorumError;
use crate::types::PutBehaviour;
use crate::wal::Wal;
use crate::wal::WalView;

verus! {

/// Connection shape of a sharded relational store.
pub enum ShardableRemoteDatabaseConfig {
    Unsharded { db_address: String },
    Sharded { shard_map: String, shard_num: u64 },
}

/// Mathematical view of `ShardableRemoteDatabaseConfig`.
pub enum ShardableRemoteView {
    Unsharded { db_address: Seq<char> },
    Sharded { shard_map: Seq<char>, shard_num: u64 },
}

pub open spec fn shardable_remote_view(r: ShardableRemoteDatabaseConfig) -> ShardableRemoteView {
    match r {
        ShardableRemoteDatabaseConfig::Unsharded { db_address } => ShardableRemoteView::Unsharded {
            db_address: db_address@,
        },
        ShardableRemoteDatabaseConfig::Sharded { shard_map, shard_num } => ShardableRemoteView::Sharded {
            shard_map: shard_map@,
            shard_num,
        },
    }
}

/// The role a backend plays inside a multiplex.
#[derive(Clone, Copy, Debug, PartialEq, Eq, Structural)]
pub enum MultiplexedStoreType {
    /// Participates in both reads and writes.
    Normal,
    /// Participates only in writes, as background capacity warm-up.
    WriteOnly,
}

/// The configuration tree the factory interprets.
pub enum BlobConfig {
    /// A local file-tree backend.
    Files { path: String },
    /// A single-file relational backend.
    Sqlite { path: String },
    /// A sharded relational backend.
    Mysql { remote: ShardableRemoteDatabaseConfig },
    /// An object-storage bucket.
    AwsS3 { bucket: String, region: String, num_concurrent_operations: Option<u64> },
    /// An object-storage bucket behind an internal credential store.
    S3 {
        bucket: String,
        keychain_group: String,
        region_name: String,
        endpoint: String,
        num_concurrent_operations: Option<u64>,
        secret_name: Option<String>,
    },
    /// A sentinel rejecting every operation.
    Disabled,
    /// Wrap the inner store with a telemetry log bound to a table.
    Logging { blobconfig: Box<BlobConfig>, scuba_table: Option<String>, scuba_sample_rate: u64 },
    /// Wrap the inner physical store with a transparent packing codec.
    Pack { pack_config: Option<PackConfig>, blobconfig: Box<BlobConfig> },
    /// A quorum multiplex over inner backends, under a write-ahead log.
    MultiplexedWal {
        multiplex_id: u32,
        blobstores: Vec<(u64, MultiplexedStoreType, BlobConfig)>,
        write_quorum: usize,
        queue_db: String,
        inner_blobstores_scuba_table: Option<String>,
        multiplex_scuba_table: Option<String>,
        scuba_sample_rate: u64,
    },
}

/// Mathematical view of `BlobConfig`.
pub enum BlobConfigView {
    Files { path: Seq<char> },
    Sqlite { path: Seq<char> },
    Mysql { remote: ShardableRemoteView },
    AwsS3 { bucket: Seq<char>, region: Seq<char>, num_concurrent_operations: Option<u64> },
    S3 {
        bucket: Seq<char>,
        keychain_group: Seq<char>,
        region_name: Seq<char>,
        endpoint: Seq<char>,
        num_concurrent_operations: Option<u64>,
        secret_name: Option<Seq<char>>,
    },
    Disabled,
    Logging { blobconfig: Box<BlobConfigView>, scuba_table: Option<Seq<char>>, scuba_sample_rate: u64 },
    Pack { pack_config: Option<PackConfig>, blobconfig: Box<BlobConfigView> },
    MultiplexedWal {
        multiplex_id: u32,
        blobstores: Seq<(u64, MultiplexedStoreType, BlobConfigView)>,
        write_quorum: usize,
        queue_db: Seq<char>,
        inner_blobstores_scuba_table: Option<Seq<char>>,
        multiplex_scuba_table: Option<Seq<char>>,
        scuba_sample_rate: u64,
    },
}

pub open spec fn blob_config_view(c: BlobConfig) -> BlobConfigView
    decreases c,
{
    match c {
        BlobConfig::Files { path } => BlobConfigView::Files { path: path@ },
        BlobConfig::Sqlite { path } => BlobConfigView::Sqlite { path: path@ },
        BlobConfig::Mysql { remote } => BlobConfigView::Mysql {
            remote: shardable_remote_view(remote),
        },
        BlobConfig::AwsS3 { bucket, region, num_concurrent_operations } => BlobConfigView::AwsS3 {
            bucket: bucket@,
            region: region@,
            num_concurrent_operations,
        },
        BlobConfig::S3 {
            bucket,
            keychain_group,
            region_name,
            endpoint,
            num_concurrent_operations,
            secret_name,
        } => BlobConfigView::S3 {
            bucket: bucket@,
            keychain_group: keychain_group@,
            region_name: region_name@,
            endpoint: endpoint@,
            num_concurrent_operations,
            secret_name: option_string_view(secret_name),
        },
        BlobConfig::Disabled => BlobConfigView::Disabled,
        BlobConfig::Logging { blobconfig, scuba_table, scuba_sample_rate } => BlobConfigView::Logging {
            blobconfig: Box::new(blob_config_view(*blobconfig)),
            scuba_table: option_string_view(scuba_table),
            scuba_sample_rate,
        },
        BlobConfig::Pack { pack_config, blobconfig } => BlobConfigView::Pack {
            pack_config,
            blobconfig: Box::new(blob_config_view(*blobconfig)),
        },
        BlobConfig::MultiplexedWal {
            multiplex_id,
            blobstores,
            write_quorum,
            queue_db,
            inner_blobstores_scuba_table,
            multiplex_scuba_table,
            scuba_sample_rate,
        } => BlobConfigView::MultiplexedWal {
            multiplex_id,
            blobstores: inner_config_views(blobstores@),
            write_quorum,
            queue_db: queue_db@,
            inner_blobstores_scuba_table: option_string_view(inner_blobstores_scuba_table),
            multiplex_scuba_table: option_string_view(multiplex_scuba_table),
            scuba_sample_rate,
        },
    }
}

pub open spec fn inner_config_views(s: Seq<(u64, MultiplexedStoreType, BlobConfig)>) -> Seq<
    (u64, MultiplexedStoreType, BlobConfigView),
>
    decreases s,
{
    if s.len() == 0 {
        Seq::empty()
    } else {
        inner_config_views(s.drop_last()).push(
            (s.last().0, s.last().1, blob_config_view(s.last().2)),
        )
    }
}

pub proof fn lemma_inner_config_views(s: Seq<(u64, MultiplexedStoreType, BlobConfig)>)
    ensures
        inner_config_views(s).len() == s.len(),
        forall|i: int|
            0 <= i < s.len() ==> #[trigger] inner_config_views(s)[i] == (
            s[i].0,
            s[i].1,
            blob_config_view(s[i].2),
            ),
    decreases s,
{
    if s.len() > 0 {
        lemma_inner_config_views(s.drop_last());
        assert forall|i: int| 0 <= i < s.len() implies #[trigger] inner_config_views(s)[i] == (
        s[i].0,
        s[i].1,
        blob_config_view(s[i].2),
        ) by {
            if i < s.len() - 1 {
                assert(s.drop_last()[i] == s[i]);
            }
        }
    }
}

impl View for BlobConfig {
    type V = BlobConfigView;

    open spec fn view(&self) -> BlobConfigView {
        blob_config_view(*self)
    }
}

/// Why the factory rejected a configuration.
#[derive(Clone, Copy, Debug, PartialEq, Eq, Structural)]
pub enum ConfigError {
    /// The configuration names no relational backend.
    NotAnSqlBlobstore,
    /// The configuration names no file-tree backend.
    NotAFileBlobstore,
    /// The configuration names no pack wrapper.
    NotAPackBlob,
    /// The configuration names no physical backend.
    NotAPhysicalBlobstore,
    /// The multiplex quorum does not fit its backends.
    InvalidQuorum(QuorumError),
    /// The telemetry configuration is unusable.
    InvalidTelemetry(ScubaError),
}

// ---------------------------------------------------------------------
// The mathematical model of construction.
// ---------------------------------------------------------------------

/// Chaos options with injection turned off, handed to every inner
/// backend of a multiplex after the first.
pub open spec fn spec_cleared_chaos(opts: BlobstoreOptions) -> BlobstoreOptions {
    BlobstoreOptions {
        chaos_options: ChaosOptions { error_sample_read: None, error_sample_write: None },
        ..opts
    }
}

/// The options the i-th inner backend of a multiplex is built with:
/// chaos goes to the first backend only.
pub open spec fn spec_child_opts(opts: BlobstoreOptions, i: int) -> BlobstoreOptions {
    if opts.chaos_options.spec_has_chaos() && i > 0 {
        spec_cleared_chaos(opts)
    } else {
        opts
    }
}

/// Inner backends of a scrubbed multiplex are read-only unless the
/// scrub repairs; without scrubbing they are writable.
pub open spec fn spec_component_ro(opts: BlobstoreOptions) -> bool {
    match opts.scrub_options {
        Some(so) => so.scrub_action != ScrubAction::Repair,
        None => false,
    }
}

/// A freshly constructed, empty, undecorated backend.
pub open spec fn spec_fresh_leaf(kind: PhysicalKindView, behaviour: PutBehaviour, ro: bool) -> LeafView {
    LeafView {
        kind,
        kv: Map::empty(),
        put_behaviour: behaviour,
        read_only: ro,
        chaos: ChaosOptions { error_sample_read: None, error_sample_write: None },
        throttle: crate::options::ThrottleOptions { read_qps: None, write_qps: None },
        delay: crate::options::DelayOptions { get_mean_micros: None, put_mean_micros: None },
        pack: None,
    }
}

/// What constructing a physical backend yields. Relational backends
/// honour the process-wide read-only flag at construction.
pub open spec fn spec_build_physical(cfg: BlobConfigView, ro: bool, behaviour: PutBehaviour) -> Result<
    LeafView,
    ConfigError,
> {
    match cfg {
        BlobConfigView::Files { path } => Ok(
            spec_fresh_leaf(PhysicalKindView::Files { path }, behaviour, false),
        ),
        BlobConfigView::Sqlite { path } => Ok(
            spec_fresh_leaf(PhysicalKindView::Sqlite { path }, behaviour, ro),
        ),
        BlobConfigView::Mysql { remote } => {
            let (tier_name, shard_count): (Seq<char>, Option<u64>) = match remote {
                ShardableRemoteView::Unsharded { db_address } => (db_address, None),
                ShardableRemoteView::Sharded { shard_map, shard_num } => (
                    shard_map,
                    Some(shard_num),
                ),
            };
            Ok(spec_fresh_leaf(PhysicalKindView::Mysql { tier_name, shard_count }, behaviour, ro))
        },
        BlobConfigView::AwsS3 { bucket, .. } => Ok(
            spec_fresh_leaf(PhysicalKindView::ObjectStore { bucket }, behaviour, false),
        ),
        _ => Err(ConfigError::NotAPhysicalBlobstore),
    }
}

/// The pack format a pack wrapper stores with: the caller's override,
/// else the configured format, else the plain one.
pub open spec fn spec_pack_format(pack_config: Option<PackConfig>, opts: BlobstoreOptions) -> PutFormat {
    match opts.pack_options.override_put_format {
        Some(f) => f,
        None => match pack_config {
            Some(c) => c.put_format,
            None => PutFormat::Raw,
        },
    }
}

/// Apply the standard decorator stack once: read-only, throttle, chaos,
/// delay. Decorators whose options are unset are skipped.
pub open spec fn spec_apply_wrappers(l: LeafView, ro: bool, opts: BlobstoreOptions) -> LeafView {
    LeafView {
        read_only: l.read_only || ro,
        throttle: if opts.throttle_options.spec_has_throttle() {
            opts.throttle_options
        } else {
            l.throttle
        },
        chaos: if opts.chaos_options.spec_has_chaos() {
            opts.chaos_options
        } else {
            l.chaos
        },
        delay: if opts.delay_options.spec_has_delay() {
            opts.delay_options
        } else {
            l.delay
        },
        ..l
    }
}

/// What the factory builds from a configuration. Multiplex and logging
/// nodes have already wrapped their inner backends, so the outer layer
/// skips the standard wrappers for them; the log sink itself is
/// telemetry and adds nothing to the model.
pub open spec fn spec_build_store(cfg: BlobConfigView, ro: bool, opts: BlobstoreOptions) -> Result<
    StoreView,
    ConfigError,
>
    decreases cfg, 2int, 0int,
{
    match cfg {
        BlobConfigView::Files { .. } | BlobConfigView::Sqlite { .. } | BlobConfigView::Mysql {
            ..
        } | BlobConfigView::AwsS3 { .. } => match spec_build_physical(cfg, ro, opts.put_behaviour) {
            Ok(l) => Ok(StoreView::Leaf(spec_apply_wrappers(l, ro, opts))),
            Err(e) => Err(e),
        },
        BlobConfigView::S3 { bucket, .. } => Ok(
            StoreView::Leaf(
                spec_apply_wrappers(
                    spec_fresh_leaf(
                        PhysicalKindView::ObjectStore { bucket },
                        opts.put_behaviour,
                        false,
                    ),
                    ro,
                    opts,
                ),
            ),
        ),
        BlobConfigView::Disabled => Ok(
            StoreView::Leaf(
                spec_apply_wrappers(
                    spec_fresh_leaf(PhysicalKindView::Disabled, opts.put_behaviour, false),
                    ro,
                    opts,
                ),
            ),
        ),
        BlobConfigView::Logging { blobconfig, .. } => spec_build_store(*blobconfig, ro, opts),
        BlobConfigView::Pack { pack_config, blobconfig } => match spec_build_physical(
            *blobconfig,
            ro,
            opts.put_behaviour,
        ) {
            Ok(l) => Ok(
                StoreView::Leaf(
                    spec_apply_wrappers(
                        LeafView { pack: Some(spec_pack_format(pack_config, opts)), ..l },
                        ro,
                        opts,
                    ),
                ),
            ),
            Err(e) => Err(e),
        },
        BlobConfigView::MultiplexedWal {
            multiplex_id,
            blobstores,
            write_quorum,
            inner_blobstores_scuba_table,
            multiplex_scuba_table,
            scuba_sample_rate,
            ..
        } => match spec_build_multiplex(
            multiplex_id,
            blobstores,
            write_quorum,
            inner_blobstores_scuba_table,
            multiplex_scuba_table,
            scuba_sample_rate,
            opts,
        ) {
            Ok(m) => Ok(StoreView::Multiplex(m)),
            Err(e) => Err(e),
        },
    }
}

/// The inner backends of a multiplex, built in configuration order; the
/// first error wins.
pub open spec fn spec_build_children(
    inner: Seq<(u64, MultiplexedStoreType, BlobConfigView)>,
    opts: BlobstoreOptions,
    i: int,
) -> Result<Seq<(u64, MultiplexedStoreType, StoreView)>, ConfigError>
    decreases inner, 0int, inner.len() - i,
{
    if i < 0 || i >= inner.len() {
        Ok(Seq::empty())
    } else {
        match spec_build_store(inner[i].2, spec_component_ro(opts), spec_child_opts(opts, i)) {
            Err(e) => Err(e),
            Ok(s) => match spec_build_children(inner, opts, i + 1) {
                Err(e) => Err(e),
                Ok(rest) => Ok(seq![(inner[i].0, inner[i].1, s)] + rest),
            },
        }
    }
}

/// The backends among the built children that play the given role.
pub open spec fn spec_filter_role(
    built: Seq<(u64, MultiplexedStoreType, StoreView)>,
    role: MultiplexedStoreType,
) -> Seq<(u64, StoreView)>
    decreases built,
{
    if built.len() == 0 {
        Seq::empty()
    } else {
        let rest = spec_filter_role(built.drop_last(), role);
        if built.last().1 == role {
            rest.push((built.last().0, built.last().2))
        } else {
            rest
        }
    }
}

/// Built backends wrapped with the timed envelope, as a multiplex holds
/// them.
pub open spec fn spec_timed(children: Seq<(u64, StoreView)>, to: MultiplexTimeout) -> Seq<
    TimedStoreView,
>
    decreases children,
{
    if children.len() == 0 {
        Seq::empty()
    } else {
        spec_timed(children.drop_last(), to).push(
            TimedStoreView {
                id: children.last().0,
                store: children.last().1,
                timeout: to,
                reads_disabled: false,
                timeout_reads: false,
                timeout_writes: false,
            },
        )
    }
}

/// What building a multiplex yields: its inner backends, the derived
/// quorum pair, a fresh accepting write-ahead log, and the scrub options
/// recorded when scrubbing is configured.
pub open spec fn spec_build_multiplex(
    multiplex_id: u32,
    inner: Seq<(u64, MultiplexedStoreType, BlobConfigView)>,
    write_quorum: usize,
    inner_blobstores_scuba_table: Option<Seq<char>>,
    multiplex_scuba_table: Option<Seq<char>>,
    scuba_sample_rate: u64,
    opts: BlobstoreOptions,
) -> Result<MuxView, ConfigError>
    decreases inner, 1int, 0int,
{
    match spec_build_children(inner, opts, 0) {
        Err(e) => Err(e),
        Ok(built) => {
            if scuba_sample_rate == 0 {
                Err(ConfigError::InvalidTelemetry(ScubaError::ZeroSampleRate))
            } else {
                let normal = spec_filter_role(built, MultiplexedStoreType::Normal);
                let write_only = spec_filter_role(built, MultiplexedStoreType::WriteOnly);
                if write_quorum > normal.len() {
                    Err(ConfigError::InvalidQuorum(QuorumError::NotEnoughBlobstores))
                } else if write_quorum == 0 {
                    Err(ConfigError::InvalidQuorum(QuorumError::WriteQuorumZero))
                } else {
                    let to = MultiplexTimeout { read_ms: 10000u64, write_ms: 15000u64 };
                    Ok(
                        MuxView {
                            multiplex_id,
                            wal_queue: WalView { entries: Seq::empty(), fail_appends: false },
                            quorum: MultiplexQuorum {
                                write: write_quorum,
                                read: (normal.len() - write_quorum + 1) as usize,
                            },
                            blobstores: spec_timed(normal, to),
                            write_only_blobstores: spec_timed(write_only, to),
                            scuba: ScubaView {
                                inner_blobstores_table: inner_blobstores_scuba_table,
                                multiplex_table: multiplex_scuba_table,
                                sample_rate: scuba_sample_rate,
                                sampled: false,
                                client_request_info: None,
                            },
                            inflight_ops_counter: 0,
                            clock: 0,
                            scrub_options: opts.scrub_options,
                        },
                    )
                }
            }
        },
    }
}

/// View of a built-store result.
pub open spec fn build_res_view(r: Result<BuiltStore, ConfigError>) -> Result<
    StoreView,
    ConfigError,
> {
    match r {
        Ok(s) => Ok(s@),
        Err(e) => Err(e),
    }
}

/// View of a built-leaf result.
pub open spec fn leaf_res_view(r: Result<Leaf, ConfigError>) -> Result<LeafView, ConfigError> {
    match r {
        Ok(l) => Ok(l@),
        Err(e) => Err(e),
    }
}

/// Mathematical view of built backend pairs.
pub open spec fn pairs_view(s: Seq<(u64, BuiltStore)>) -> Seq<(u64, StoreView)>
    decreases s,
{
    if s.len() == 0 {
        Seq::empty()
    } else {
        pairs_view(s.drop_last()).push((s.last().0, s.last().1@))
    }
}

pub proof fn lemma_pairs_view(s: Seq<(u64, BuiltStore)>)
    ensures
        pairs_view(s).len() == s.len(),
        forall|i: int| 0 <= i < s.len() ==> #[trigger] pairs_view(s)[i] == (s[i].0, s[i].1@),
    decreases s,
{
    if s.len() > 0 {
        lemma_pairs_view(s.drop_last());
        assert forall|i: int| 0 <= i < s.len() implies #[trigger] pairs_view(s)[i] == (
        s[i].0,
        s[i].1@,
        ) by {
            if i < s.len() - 1 {
                assert(s.drop_last()[i] == s[i]);
            }
        }
    }
}

pub proof fn lemma_spec_timed_index(children: Seq<(u64, StoreView)>, to: MultiplexTimeout)
    ensures
        spec_timed(children, to).len() == children.len(),
        forall|i: int|
            0 <= i < children.len() ==> #[trigger] spec_timed(children, to)[i] == (TimedStoreView {
                id: children[i].0,
                store: children[i].1,
                timeout: to,
                reads_disabled: false,
                timeout_reads: false,
                timeout_writes: false,
            }),
    decreases children,
{
    if children.len() > 0 {
        lemma_spec_timed_index(children.drop_last(), to);
        assert forall|i: int| 0 <= i < children.len() implies #[trigger] spec_timed(children, to)[i]
            == (TimedStoreView {
            id: children[i].0,
            store: children[i].1,
            timeout: to,
            reads_disabled: false,
            timeout_reads: false,
            timeout_writes: false,
        }) by {
            if i < children.len() - 1 {
                assert(children.drop_last()[i] == children[i]);
            }
        }
    }
}

// ---------------------------------------------------------------------
// Construction itself.
// ---------------------------------------------------------------------

/// Apply the standard decorator stack to a freshly built backend.
fn apply_standard_wrappers(store: Leaf, readonly_storage: ReadOnlyStorage, opts: &BlobstoreOptions) -> (r:
    Leaf)
    ensures
        r@ == spec_apply_wrappers(store@, readonly_storage.0, *opts),
        store.wf() ==> r.wf(),
{
    let mut store = store;
    if readonly_storage.0 {
        store.read_only = true;
    }
    if opts.throttle_options.has_throttle() {
        store.throttle = opts.throttle_options;
    }
    if opts.chaos_options.has_chaos() {
        store.chaos = opts.chaos_options;
    }
    if opts.delay_options.has_delay() {
        store.delay = opts.delay_options;
    }
    store
}

/// Construct a local file-tree backend.
pub fn make_files_blobstore(blobconfig: BlobConfig, blobstore_options: &BlobstoreOptions) -> (r:
    Result<Leaf, ConfigError>)
    ensures
        leaf_res_view(r) == match blob_config_view(blobconfig) {
            BlobConfigView::Files { path } => Ok::<LeafView, ConfigError>(
                spec_fresh_leaf(
                    PhysicalKindView::Files { path },
                    blobstore_options.put_behaviour,
                    false,
                ),
            ),
            _ => Err(ConfigError::NotAFileBlobstore),
        },
        r matches Ok(l) ==> l.wf(),
{
    if let BlobConfig::Files { path } = blobconfig {
        Ok(Leaf::new(PhysicalKind::Files { path }, blobstore_options.put_behaviour))
    } else {
        Err(ConfigError::NotAFileBlobstore)
    }
}

/// Construct a sharded relational backend directly from its tier name
/// and shard count.
pub fn make_sql_blobstore_xdb(
    tier_name: String,
    shard_count: Option<u64>,
    readonly_storage: ReadOnlyStorage,
    put_behaviour: PutBehaviour,
) -> (r: Result<Leaf, ConfigError>)
    ensures
        leaf_res_view(r) == Ok::<LeafView, ConfigError>(
            spec_fresh_leaf(
                PhysicalKindView::Mysql { tier_name: tier_name@, shard_count },
                put_behaviour,
                readonly_storage.0,
            ),
        ),
        r matches Ok(l) ==> l.wf(),
{
    let mut l = Leaf::new(PhysicalKind::Mysql { tier_name, shard_count }, put_behaviour);
    l.read_only = readonly_storage.0;
    Ok(l)
}

/// Construct a relational backend from its configuration.
pub fn make_sql_blobstore(
    blobconfig: BlobConfig,
    readonly_storage: ReadOnlyStorage,
    blobstore_options: &BlobstoreOptions,
) -> (r: Result<Leaf, ConfigError>)
    ensures
        leaf_res_view(r) == match blob_config_view(blobconfig) {
            BlobConfigView::Sqlite { path } => Ok::<LeafView, ConfigError>(
                spec_fresh_leaf(
                    PhysicalKindView::Sqlite { path },
                    blobstore_options.put_behaviour,
                    readonly_storage.0,
                ),
            ),
            BlobConfigView::Mysql { remote } => Ok(
                spec_fresh_leaf(
                    match remote {
                        ShardableRemoteView::Unsharded { db_address } => PhysicalKindView::Mysql {
                            tier_name: db_address,
                            shard_count: None,
                        },
                        ShardableRemoteView::Sharded { shard_map, shard_num } => PhysicalKindView::Mysql {
                            tier_name: shard_map,
                            shard_count: Some(shard_num),
                        },
                    },
                    blobstore_options.put_behaviour,
                    readonly_storage.0,
                ),
            ),
            _ => Err(ConfigError::NotAnSqlBlobstore),
        },
        r matches Ok(l) ==> l.wf(),
{
    match blobconfig {
        BlobConfig::Sqlite { path } => {
            let mut l = Leaf::new(
                PhysicalKind::Sqlite { path },
                blobstore_options.put_behaviour,
            );
            l.read_only = readonly_storage.0;
            Ok(l)
        },
        BlobConfig::Mysql { remote } => {
            let (tier_name, shard_count) = match remote {
                ShardableRemoteDatabaseConfig::Unsharded { db_address } => (db_address, None),
                ShardableRemoteDatabaseConfig::Sharded { shard_map, shard_num } => (
                    shard_map,
                    Some(shard_num),
                ),
            };
            make_sql_blobstore_xdb(
                tier_name,
                shard_count,
                readonly_storage,
                blobstore_options.put_behaviour,
            )
        },
        _ => Err(ConfigError::NotAnSqlBlobstore),
    }
}

/// Construct a physical backend of any supported kind.
pub fn make_physical_blobstore_unlink_ops(
    blobconfig: BlobConfig,
    readonly_storage: ReadOnlyStorage,
    blobstore_options: &BlobstoreOptions,
) -> (r: Result<Leaf, ConfigError>)
    ensures
        leaf_res_view(r) == spec_build_physical(
            blob_config_view(blobconfig),
            readonly_storage.0,
            blobstore_options.put_behaviour,
        ),
        r matches Ok(l) ==> l.wf(),
{
    match &blobconfig {
        BlobConfig::Sqlite { .. } | BlobConfig::Mysql { .. } => make_sql_blobstore(
            blobconfig,
            readonly_storage,
            blobstore_options,
        ),
        BlobConfig::Files { .. } => make_files_blobstore(blobconfig, blobstore_options),
        BlobConfig::AwsS3 { .. } => {
            if let BlobConfig::AwsS3 { bucket, .. } = blobconfig {
                Ok(Leaf::new(
                    PhysicalKind::ObjectStore { bucket },
                    blobstore_options.put_behaviour,
                ))
            } else {
                Err(ConfigError::NotAPhysicalBlobstore)
            }
        },
        _ => Err(ConfigError::NotAPhysicalBlobstore),
    }
}

/// Wrap an already-built backend with the transparent packing codec.
pub fn make_packblob_wrapper(
    pack_config: Option<PackConfig>,
    blobstore_options: &BlobstoreOptions,
    store: Leaf,
) -> (r: Result<Leaf, ConfigError>)
    ensures
        r matches Ok(l) && l@ == (LeafView {
            pack: Some(spec_pack_format(pack_config, *blobstore_options)),
            ..store@
        }),
        store.wf() ==> (r matches Ok(l) && l.wf()),
{
    let put_format = match blobstore_options.pack_options.override_put_format {
        Some(f) => f,
        None => match pack_config {
            Some(c) => c.put_format,
            None => PutFormat::Raw,
        },
    };
    Ok(Leaf { pack: Some(put_format), ..store })
}

/// Construct a pack wrapper around its configured physical backend.
pub fn make_packblob(
    blobconfig: BlobConfig,
    readonly_storage: ReadOnlyStorage,
    blobstore_options: &BlobstoreOptions,
) -> (r: Result<Leaf, ConfigError>)
    ensures
        leaf_res_view(r) == match blob_config_view(blobconfig) {
            BlobConfigView::Pack { pack_config, blobconfig: inner } => match spec_build_physical(
                *inner,
                readonly_storage.0,
                blobstore_options.put_behaviour,
            ) {
                Ok(l) => Ok::<LeafView, ConfigError>(
                    LeafView {
                        pack: Some(spec_pack_format(pack_config, *blobstore_options)),
                        ..l
                    },
                ),
                Err(e) => Err(e),
            },
            _ => Err(ConfigError::NotAPackBlob),
        },
        r matches Ok(l) ==> l.wf(),
{
    if let BlobConfig::Pack { pack_config, blobconfig } = blobconfig {
        let store = match make_physical_blobstore_unlink_ops(
            *blobconfig,
            readonly_storage,
            blobstore_options,
        ) {
            Ok(s) => s,
            Err(e) => {
                return Err(e);
            },
        };
        make_packblob_wrapper(pack_config, blobstore_options, store)
    } else {
        Err(ConfigError::NotAPackBlob)
    }
}

/// Construct a raw enumerable backend: only the file tree supports
/// enumeration with unlink here.
pub fn raw_blobstore_enumerable_with_unlink(
    blobconfig: BlobConfig,
    blobstore_options: &BlobstoreOptions,
) -> (r: Result<Leaf, ConfigError>)
    ensures
        leaf_res_view(r) == match blob_config_view(blobconfig) {
            BlobConfigView::Files { path } => Ok::<LeafView, ConfigError>(
                spec_fresh_leaf(
                    PhysicalKindView::Files { path },
                    blobstore_options.put_behaviour,
                    false,
                ),
            ),
            _ => Err(ConfigError::NotAPhysicalBlobstore),
        },
        r matches Ok(l) ==> l.wf(),
{
    match &blobconfig {
        BlobConfig::Files { .. } => match make_files_blobstore(blobconfig, blobstore_options) {
            Ok(l) => Ok(l),
            Err(_) => Err(ConfigError::NotAPhysicalBlobstore),
        },
        _ => Err(ConfigError::NotAPhysicalBlobstore),
    }
}

/// Construct an enumerable backend, wrapping it with the packing codec
/// when the configuration asks for one.
pub fn make_blobstore_enumerable_with_unlink(
    blobconfig: BlobConfig,
    blobstore_options: &BlobstoreOptions,
) -> (r: Result<Leaf, ConfigError>)
    ensures
        leaf_res_view(r) == match blob_config_view(blobconfig) {
            BlobConfigView::Pack { pack_config, blobconfig: inner } => match (match *inner {
                BlobConfigView::Files { path } => Ok::<LeafView, ConfigError>(
                    spec_fresh_leaf(
                        PhysicalKindView::Files { path },
                        blobstore_options.put_behaviour,
                        false,
                    ),
                ),
                _ => Err(ConfigError::NotAPhysicalBlobstore),
            }) {
                Ok(l) => Ok::<LeafView, ConfigError>(
                    LeafView {
                        pack: Some(spec_pack_format(pack_config, *blobstore_options)),
                        ..l
                    },
                ),
                Err(e) => Err(e),
            },
            BlobConfigView::Files { path } => Ok(
                spec_fresh_leaf(
                    PhysicalKindView::Files { path },
                    blobstore_options.put_behaviour,
                    false,
                ),
            ),
            _ => Err(ConfigError::NotAPhysicalBlobstore),
        },
        r matches Ok(l) ==> l.wf(),
{
    match blobconfig {
        BlobConfig::Pack { pack_config, blobconfig } => {
            let store = match raw_blobstore_enumerable_with_unlink(
                *blobconfig,
                blobstore_options,
            ) {
                Ok(s) => s,
                Err(e) => {
                    return Err(e);
                },
            };
            make_packblob_wrapper(pack_config, blobstore_options, store)
        },
        _ => raw_blobstore_enumerable_with_unlink(blobconfig, blobstore_options),
    }
}

/// Construct a blobstore according to the configuration: physical
/// backends get the standard decorator stack; multiplex and logging
/// nodes have already wrapped their inner backends and skip it.
#[verifier::rlimit(100)]
pub fn make_blobstore_unlink_ops(
    blobconfig: BlobConfig,
    readonly_storage: ReadOnlyStorage,
    blobstore_options: &BlobstoreOptions,
    blobstore_id: Option<u64>,
) -> (r: Result<BuiltStore, ConfigError>)
    ensures
        build_res_view(r) == spec_build_store(
            blob_config_view(blobconfig),
            readonly_storage.0,
            *blobstore_options,
        ),
        r matches Ok(s) ==> store_repr_wf(s),
    decreases blobconfig, 2int, 0int,
{
    let ghost cfg0 = blobconfig;
    match blobconfig {
        BlobConfig::Files { .. } | BlobConfig::Sqlite { .. } | BlobConfig::Mysql { .. }
            | BlobConfig::AwsS3 { .. } => {
            let store = match make_physical_blobstore_unlink_ops(
                blobconfig,
                readonly_storage,
                blobstore_options,
            ) {
                Ok(s) => s,
                Err(e) => {
                    return Err(e);
                },
            };
            Ok(
                BuiltStore::Leaf(
                    apply_standard_wrappers(store, readonly_storage, blobstore_options),
                ),
            )
        },
        BlobConfig::S3 { bucket, .. } => {
            let store = Leaf::new(
                PhysicalKind::ObjectStore { bucket },
                blobstore_options.put_behaviour,
            );
            Ok(
                BuiltStore::Leaf(
                    apply_standard_wrappers(store, readonly_storage, blobstore_options),
                ),
            )
        },
        BlobConfig::Disabled => {
            let store = Leaf::new(PhysicalKind::Disabled, blobstore_options.put_behaviour);
            Ok(
                BuiltStore::Leaf(
                    apply_standard_wrappers(store, readonly_storage, blobstore_options),
                ),
            )
        },
        BlobConfig::MultiplexedWal {
            multiplex_id,
            blobstores,
            write_quorum,
            queue_db,
            inner_blobstores_scuba_table,
            multiplex_scuba_table,
            scuba_sample_rate,
        } => {
            proof {
                assert(decreases_to!(cfg0 => blobstores));
            }
            // The queue name selects the write-ahead log's storage
            // engine, an external collaborator; the queue built here
            // starts empty whichever store backs it.
            let _ = queue_db;
            make_multiplexed_wal(
                multiplex_id,
                inner_blobstores_scuba_table,
                multiplex_scuba_table,
                scuba_sample_rate,
                blobstores,
                write_quorum,
                blobstore_options,
            )
        },
        BlobConfig::Logging { blobconfig, .. } => {
            // The telemetry log decorator records completions to a sink
            // outside this crate and changes no outcome; the inner store
            // is built with its own wrappers and passed through.
            proof {
                assert(decreases_to!(cfg0 => *blobconfig));
            }
            make_blobstore_unlink_ops(*blobconfig, readonly_storage, blobstore_options, None)
        },
        BlobConfig::Pack { .. } => {
            let store = match make_packblob(blobconfig, readonly_storage, blobstore_options) {
                Ok(s) => s,
                Err(e) => {
                    return Err(e);
                },
            };
            Ok(
                BuiltStore::Leaf(
                    apply_standard_wrappers(store, readonly_storage, blobstore_options),
                ),
            )
        },
    }
}

/// Construct the quorum multiplexer a configuration names: build every
/// inner backend, then assemble them under a fresh write-ahead log.
#[verifier::rlimit(100)]
pub fn make_multiplexed_wal(
    multiplex_id: u32,
    inner_blobstores_scuba_table: Option<String>,
    multiplex_scuba_table: Option<String>,
    scuba_sample_rate: u64,
    inner_config: Vec<(u64, MultiplexedStoreType, BlobConfig)>,
    write_quorum: usize,
    blobstore_options: &BlobstoreOptions,
) -> (r: Result<BuiltStore, ConfigError>)
    ensures
        build_res_view(r) == match spec_build_multiplex(
            multiplex_id,
            inner_config_views(inner_config@),
            write_quorum,
            option_string_view(inner_blobstores_scuba_table),
            option_string_view(multiplex_scuba_table),
            scuba_sample_rate,
            *blobstore_options,
        ) {
            Ok(m) => Ok::<StoreView, ConfigError>(StoreView::Multiplex(m)),
            Err(e) => Err(e),
        },
        r matches Ok(s) ==> store_repr_wf(s),
    decreases inner_config, 1int, 0int,
{
    let ghost icv = inner_config_views(inner_config@);
    let (normal_components, write_only_components) = match setup_inner_blobstores(
        inner_config,
        blobstore_options,
    ) {
        Ok(p) => p,
        Err(e) => {
            return Err(e);
        },
    };
    let scuba = match Scuba::new_from_raw(
        inner_blobstores_scuba_table,
        multiplex_scuba_table,
        scuba_sample_rate,
    ) {
        Ok(s) => s,
        Err(e) => {
            return Err(ConfigError::InvalidTelemetry(e));
        },
    };
    let ghost normal_pairs = pairs_view(normal_components@);
    let ghost wo_pairs = pairs_view(write_only_components@);
    proof {
        lemma_pairs_view(normal_components@);
        lemma_pairs_view(write_only_components@);
    }
    let wal_queue = Wal::new();
    let mut blobstore = match WalMultiplexedBlobstore::new(
        multiplex_id,
        wal_queue,
        normal_components,
        write_only_components,
        write_quorum,
        None,
        scuba,
    ) {
        Ok(m) => m,
        Err(e) => {
            return Err(ConfigError::InvalidQuorum(e));
        },
    };
    // A scrubbed multiplex records the scrub surface; otherwise it runs
    // the plain quorum protocol.
    blobstore.scrub_options = blobstore_options.scrub_options;
    proof {
        let to = MultiplexTimeout { read_ms: 10000u64, write_ms: 15000u64 };
        lemma_spec_timed_index(normal_pairs, to);
        lemma_spec_timed_index(wo_pairs, to);
        assert(blobstore@.blobstores =~= spec_timed(normal_pairs, to));
        assert(blobstore@.write_only_blobstores =~= spec_timed(wo_pairs, to));
        let m = spec_build_multiplex(
            multiplex_id,
            icv,
            write_quorum,
            option_string_view(inner_blobstores_scuba_table),
            option_string_view(multiplex_scuba_table),
            scuba_sample_rate,
            *blobstore_options,
        );
        assert(m matches Ok(mm) && blobstore@ =~= mm);
    }
    Ok(BuiltStore::Multiplex(Box::new(blobstore)))
}

/// Build every inner backend of a multiplex, in configuration order,
/// splitting them by role. Within the multiplex, chaos is applied to
/// only the first inner backend; all later ones get a cleared chaos
/// configuration. When the multiplex is scrubbed without repair, inner
/// backends are built read-only.
#[verifier::loop_isolation(false)]
#[verifier::rlimit(100)]
pub fn setup_inner_blobstores(
    inner_config: Vec<(u64, MultiplexedStoreType, BlobConfig)>,
    blobstore_options: &BlobstoreOptions,
) -> (r: Result<(Vec<(u64, BuiltStore)>, Vec<(u64, BuiltStore)>), ConfigError>)
    ensures
        match spec_build_children(inner_config_views(inner_config@), *blobstore_options, 0) {
            Err(e) => r == Err::<(Vec<(u64, BuiltStore)>, Vec<(u64, BuiltStore)>), ConfigError>(e),
            Ok(built) => {
                &&& r matches Ok(p)
                &&& pairs_view(p.0@) == spec_filter_role(built, MultiplexedStoreType::Normal)
                &&& pairs_view(p.1@) == spec_filter_role(built, MultiplexedStoreType::WriteOnly)
                &&& forall|i: int|
                    0 <= i < p.0@.len() ==> store_repr_wf((#[trigger] p.0@[i]).1)
                &&& forall|i: int|
                    0 <= i < p.1@.len() ==> store_repr_wf((#[trigger] p.1@[i]).1)
            },
        },
    decreases inner_config, 0int, 0int,
{
    let ghost ic0 = inner_config;
    let ghost icv = inner_config_views(inner_config@);
    proof {
        lemma_inner_config_views(inner_config@);
        assert(inner_config@.skip(0) =~= inner_config@);
    }
    let component_readonly = ReadOnlyStorage(
        match &blobstore_options.scrub_options {
            Some(so) => match so.scrub_action {
                ScrubAction::Repair => false,
                ScrubAction::ReportOnly => true,
            },
            None => false,
        },
    );
    let has_chaos = blobstore_options.chaos_options.has_chaos();
    let cleared = BlobstoreOptions {
        chaos_options: ChaosOptions { error_sample_read: None, error_sample_write: None },
        ..*blobstore_options
    };
    let mut components = inner_config;
    let mut normal_components: Vec<(u64, BuiltStore)> = Vec::new();
    let mut write_only_components: Vec<(u64, BuiltStore)> = Vec::new();
    let mut taken: usize = 0;
    let n0 = components.len();
    let ghost mut built_pref: Seq<(u64, MultiplexedStoreType, StoreView)> = Seq::empty();
    proof {
        assert(spec_filter_role(built_pref, MultiplexedStoreType::Normal) =~= pairs_view(
            normal_components@,
        ));
        assert(spec_filter_role(built_pref, MultiplexedStoreType::WriteOnly) =~= pairs_view(
            write_only_components@,
        ));
    }
    while components.len() > 0
        invariant
            icv.len() <= usize::MAX,
            taken + components@.len() == icv.len(),
            components@ =~= ic0@.skip(taken as int),
            built_pref.len() == taken,
            spec_build_children(icv, *blobstore_options, 0) == (match spec_build_children(
                icv,
                *blobstore_options,
                taken as int,
            ) {
                Err(e) => Err::<Seq<(u64, MultiplexedStoreType, StoreView)>, ConfigError>(e),
                Ok(rest) => Ok(built_pref + rest),
            }),
            spec_filter_role(built_pref, MultiplexedStoreType::Normal) == pairs_view(
                normal_components@,
            ),
            spec_filter_role(built_pref, MultiplexedStoreType::WriteOnly) == pairs_view(
                write_only_components@,
            ),
            forall|i: int|
                0 <= i < normal_components@.len() ==> store_repr_wf(
                    (#[trigger] normal_components@[i]).1,
                ),
            forall|i: int|
                0 <= i < write_only_components@.len() ==> store_repr_wf(
                    (#[trigger] write_only_components@[i]).1,
                ),
        decreases components@.len(),
    {
        let (blobstore_id, store_type, config) = components.remove(0);
        proof {
            assert(ic0@.skip(taken as int)[0] == ic0@[taken as int]);
            assert(ic0@.skip(taken as int).skip(1) =~= ic0@.skip(taken + 1));
            assert(icv[taken as int] == (
                ic0@[taken as int].0,
                ic0@[taken as int].1,
                blob_config_view(ic0@[taken as int].2),
            ));
            assert(decreases_to!(ic0 => ic0@[taken as int].2));
        }
        let child_options = if has_chaos && taken > 0 {
            &cleared
        } else {
            blobstore_options
        };
        let ghost expected = spec_build_store(
            icv[taken as int].2,
            spec_component_ro(*blobstore_options),
            spec_child_opts(*blobstore_options, taken as int),
        );
        let store = match make_blobstore_unlink_ops(
            config,
            component_readonly,
            child_options,
            Some(blobstore_id),
        ) {
            Ok(s) => s,
            Err(e) => {
                proof {
                    assert(spec_build_children(icv, *blobstore_options, taken as int) == Err::<
                        Seq<(u64, MultiplexedStoreType, StoreView)>,
                        ConfigError,
                    >(e));
                }
                return Err(e);
            },
        };
        let ghost pre_built = built_pref;
        proof {
            built_pref = built_pref.push((blobstore_id, store_type, store@));
        }
        match store_type {
            MultiplexedStoreType::Normal => {
                let ghost pre = normal_components@;
                normal_components.push((blobstore_id, store));
                proof {
                    assert(normal_components@.drop_last() =~= pre);
                    assert(built_pref.drop_last() =~= pre_built);
                    assert(pairs_view(normal_components@) =~= spec_filter_role(
                        built_pref,
                        MultiplexedStoreType::Normal,
                    ));
                    assert(pairs_view(write_only_components@) =~= spec_filter_role(
                        built_pref,
                        MultiplexedStoreType::WriteOnly,
                    ));
                }
            },
            MultiplexedStoreType::WriteOnly => {
                let ghost pre = write_only_components@;
                write_only_components.push((blobstore_id, store));
                proof {
                    assert(write_only_components@.drop_last() =~= pre);
                    assert(built_pref.drop_last() =~= pre_built);
                    assert(pairs_view(write_only_components@) =~= spec_filter_role(
                        built_pref,
                        MultiplexedStoreType::WriteOnly,
                    ));
                    assert(pairs_view(normal_components@) =~= spec_filter_role(
                        built_pref,
                        MultiplexedStoreType::Normal,
                    ));
                }
            },
        }
        proof {
            let rest0 = spec_build_children(icv, *blobstore_options, taken as int);
            let rest1 = spec_build_children(icv, *blobstore_options, taken + 1);
            assert(rest0 == (match rest1 {
                Err(e) => Err::<Seq<(u64, MultiplexedStoreType, StoreView)>, ConfigError>(e),
                Ok(rest) => Ok(
                    seq![(icv[taken as int].0, icv[taken as int].1, store@)] + rest,
                ),
            }));
            if rest1 is Ok {
                assert(built_pref + rest1.unwrap() =~= pre_built + rest0.unwrap());
            }
        }
        taken = taken + 1;
    }
    proof {
        assert(taken == icv.len());
        assert(spec_build_children(icv, *blobstore_options, taken as int) == Ok::<
            Seq<(u64, MultiplexedStoreType, StoreView)>,
            ConfigError,
        >(Seq::empty()));
        assert(built_pref + Seq::<(u64, MultiplexedStoreType, StoreView)>::empty() =~= built_pref);
    }
    Ok((normal_components, write_only_components))
}

/// Construct a blobstore for general use.
pub fn make_blobstore(
    blobconfig: BlobConfig,
    readonly_storage: ReadOnlyStorage,
    blobstore_options: &BlobstoreOptions,
) -> (r: Result<BuiltStore, ConfigError>)
    ensures
        build_res_view(r) == spec_build_store(
            blob_config_view(blobconfig),
            readonly_storage.0,
            *blobstore_options,
        ),
        r matches Ok(s) ==> store_repr_wf(s),
{
    make_blobstore_unlink_ops(blobconfig, readonly_storage, blobstore_options, None)
}

/// Construct a blobstore exposing explicit put statuses.
pub fn make_blobstore_put_ops(
    blobconfig: BlobConfig,
    readonly_storage: ReadOnlyStorage,
    blobstore_options: &BlobstoreOptions,
    blobstore_id: Option<u64>,
) -> (r: Result<BuiltStore, ConfigError>)
    ensures
        build_res_view(r) == spec_build_store(
            blob_config_view(blobconfig),
            readonly_storage.0,
            *blobstore_options,
        ),
        r matches Ok(s) ==> store_repr_wf(s),
{
    make_blobstore_unlink_ops(blobconfig, readonly_storage, blobstore_options, blobstore_id)
}

} // verus!
