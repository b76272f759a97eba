//! The quorum multiplexer: fronts several backends, replicates puts under
//! a write-ahead log, reads with a negative quorum, and unlinks
//! everywhere. Backends may themselves be multiplexers.

use vstd::prelude::*;
use crate::leaf::Leaf;
use crate::leaf::LeafView;
use crate::leaf::leaf_view;
use crate::options::Scuba;
use crate::options::ScubaView;
use crate::options::ScrubOptions;
use crate::quorum::MultiplexQuorum;
use crate::quorum::QuorumError;
use crate::wal::Wal;
use crate::wal::WalView;
use crate::kv::clone_bytes;
use crate::semantics::ch_height;
use crate::semantics::child_after_put;
use crate::semantics::child_after_unlink;
use crate::semantics::child_get;
use crate::semantics::child_is_present;
use crate::semantics::child_put_result;
use crate::semantics::child_unlink_raw;
use crate::semantics::child_unlink_rescued;
use crate::semantics::children_after_put;
use crate::semantics::children_after_unlink;
use crate::semantics::lemma_children_after_put_index;
use crate::semantics::lemma_children_after_unlink_index;
use crate::semantics::mux_after_put;
use crate::semantics::mux_after_unlink;
use crate::semantics::mux_put_result;
use crate::semantics::mux_unlink_result;
use crate::semantics::put_errs_from;
use crate::semantics::put_ok_from;
use crate::semantics::put_wal_entry;
use crate::semantics::store_after_put;
use crate::semantics::store_after_unlink;
use crate::semantics::store_put_result;
use crate::semantics::store_unlink_result;
use crate::semantics::unlink_errs_from;
use crate::semantics::get_scan;
use crate::semantics::lemma_ch_height_bound;
use crate::semantics::mux_get;
use crate::semantics::mux_get_data;
use crate::semantics::mux_is_present;
use crate::semantics::mux_used_count;
use crate::semantics::mv_height;
use crate::semantics::pres_scan;
use crate::semantics::store_get;
use crate::semantics::store_is_present;
use crate::semantics::sv_height;
use crate::types::BlobstoreIsPresent;
use crate::types::ErrorKind;
use crate::types::MultiplexError;
use crate::types::StoreError;
use crate::types::StoreErrorView;
use crate::types::error_list_view;
use crate::types::get_res_view;
use crate::types::mux_data_res_view;
use crate::types::mux_get_res_view;
use crate::types::mux_pres_res_view;
use crate::types::mux_put_res_view;
use crate::types::mux_unlink_res_view;
use crate::types::pres_res_view;
use crate::types::put_res_view;
use crate::types::unlink_res_view;
use crate::types::OverwriteStatus;
use crate::types::PutBehaviour;
use crate::wal::WalEntry;
use crate::types::store_error_view;

verus! {

/// How long the timed envelope waits for a backend before failing the
/// operation with a deadline error, per operation kind.
#[derive(Clone, Copy, Debug, PartialEq, Eq, Structural)]
pub struct MultiplexTimeout {
    pub read_ms: u64,
    pub write_ms: u64,
}

impl MultiplexTimeout {
    pub fn new(read_ms: u64, write_ms: u64) -> (r: MultiplexTimeout)
        ensures
            r.read_ms == read_ms,
            r.write_ms == write_ms,
    {
        MultiplexTimeout { read_ms, write_ms }
    }
}

impl Default for MultiplexTimeout {
    /// The conservative defaults used when a multiplex is built without
    /// explicit timeouts.
    fn default() -> (r: MultiplexTimeout)
        ensures
            r.read_ms == 10000u64,
            r.write_ms == 15000u64,
    {
        MultiplexTimeout { read_ms: 10000, write_ms: 15000 }
    }
}

/// One backend as the multiplexer holds it: the store, its identifier,
/// its timed envelope, and the per-backend flags the multiplexer
/// consults.
pub struct TimedStore {
    pub id: u64,
    pub store: BuiltStore,
    pub timeout: MultiplexTimeout,
    /// The per-backend "disabled for reads" feature flag: a get skips
    /// this backend, which then counts neither toward quorum nor toward
    /// failures.
    pub reads_disabled: bool,
    /// The envelope currently cuts reads off: the backend hangs and every
    /// read fails with a deadline error.
    pub timeout_reads: bool,
    /// The envelope currently cuts writes off.
    pub timeout_writes: bool,
}

/// A ready-to-use blob store: a single decorated backend, or a whole
/// multiplexer standing in a backend's place.
pub enum BuiltStore {
    Leaf(Leaf),
    Multiplex(Box<WalMultiplexedBlobstore>),
}

/// The quorum multiplexer.
pub struct WalMultiplexedBlobstore {
    /// Names this multiplex configuration; persisted into write-ahead-log
    /// entries so multiple multiplexes may share a log store.
    pub multiplex_id: u32,
    /// Write-ahead log used to keep data consistent across blobstores.
    pub wal_queue: Wal,
    pub quorum: MultiplexQuorum,
    /// The normal backends, read on `get` and written on `put`.
    pub blobstores: Vec<TimedStore>,
    /// Write-only backends take part in writes but are not read under
    /// normal operation.
    pub write_only_blobstores: Vec<TimedStore>,
    /// Telemetry configuration for the underlying blobstore queries.
    pub scuba: Scuba,
    /// Counter of the yet-to-complete backend operations in flight,
    /// maintained by the runtime that drives this multiplexer.
    pub inflight_ops_counter: u64,
    /// Monotonic timestamp source for write-ahead-log entries; ticks on
    /// every put and saturates at the largest timestamp.
    pub clock: i64,
    /// When set, the healer's scrubbing read surface is available and
    /// runs with these options.
    pub scrub_options: Option<ScrubOptions>,
}

/// Mathematical view of `TimedStore`.
#[verifier::ext_equal]
pub struct TimedStoreView {
    pub id: u64,
    pub store: StoreView,
    pub timeout: MultiplexTimeout,
    pub reads_disabled: bool,
    pub timeout_reads: bool,
    pub timeout_writes: bool,
}

/// Mathematical view of `BuiltStore`.
#[verifier::ext_equal]
pub enum StoreView {
    Leaf(LeafView),
    Multiplex(MuxView),
}

/// Mathematical view of `WalMultiplexedBlobstore`.
#[verifier::ext_equal]
pub struct MuxView {
    pub multiplex_id: u32,
    pub wal_queue: WalView,
    pub quorum: MultiplexQuorum,
    pub blobstores: Seq<TimedStoreView>,
    pub write_only_blobstores: Seq<TimedStoreView>,
    pub scuba: ScubaView,
    pub inflight_ops_counter: u64,
    pub clock: i64,
    pub scrub_options: Option<ScrubOptions>,
}

pub open spec fn store_view(s: BuiltStore) -> StoreView
    decreases s,
{
    match s {
        BuiltStore::Leaf(l) => StoreView::Leaf(leaf_view(l)),
        BuiltStore::Multiplex(m) => StoreView::Multiplex(mux_view(*m)),
    }
}

pub open spec fn timed_store_view(c: TimedStore) -> TimedStoreView
    decreases c,
{
    TimedStoreView {
        id: c.id,
        store: store_view(c.store),
        timeout: c.timeout,
        reads_disabled: c.reads_disabled,
        timeout_reads: c.timeout_reads,
        timeout_writes: c.timeout_writes,
    }
}

pub open spec fn children_views(s: Seq<TimedStore>) -> Seq<TimedStoreView>
    decreases s,
{
    if s.len() == 0 {
        Seq::empty()
    } else {
        children_views(s.drop_last()).push(timed_store_view(s.last()))
    }
}

pub open spec fn mux_view(m: WalMultiplexedBlobstore) -> MuxView
    decreases m,
{
    MuxView {
        multiplex_id: m.multiplex_id,
        wal_queue: m.wal_queue@,
        quorum: m.quorum,
        blobstores: children_views(m.blobstores@),
        write_only_blobstores: children_views(m.write_only_blobstores@),
        scuba: m.scuba@,
        inflight_ops_counter: m.inflight_ops_counter,
        clock: m.clock,
        scrub_options: m.scrub_options,
    }
}

impl View for BuiltStore {
    type V = StoreView;

    open spec fn view(&self) -> StoreView {
        store_view(*self)
    }
}

impl View for TimedStore {
    type V = TimedStoreView;

    open spec fn view(&self) -> TimedStoreView {
        timed_store_view(*self)
    }
}

impl View for WalMultiplexedBlobstore {
    type V = MuxView;

    open spec fn view(&self) -> MuxView {
        mux_view(*self)
    }
}

/// The view of a child list is element-wise.
pub proof fn lemma_children_views(s: Seq<TimedStore>)
    ensures
        children_views(s).len() == s.len(),
        forall|i: int|
            0 <= i < s.len() ==> #[trigger] children_views(s)[i] == timed_store_view(s[i]),
    decreases s,
{
    if s.len() > 0 {
        lemma_children_views(s.drop_last());
    }
}

/// Representation invariant of a store: every blob state in the tree
/// holds each key once.
pub open spec fn store_repr_wf(s: BuiltStore) -> bool
    decreases s,
{
    match s {
        BuiltStore::Leaf(l) => l.wf(),
        BuiltStore::Multiplex(m) => mux_repr_wf(*m),
    }
}

pub open spec fn children_repr_wf(s: Seq<TimedStore>) -> bool
    decreases s,
{
    if s.len() == 0 {
        true
    } else {
        children_repr_wf(s.drop_last()) && store_repr_wf(s.last().store)
    }
}

pub open spec fn mux_repr_wf(m: WalMultiplexedBlobstore) -> bool
    decreases m,
{
    children_repr_wf(m.blobstores@) && children_repr_wf(m.write_only_blobstores@)
}

/// Representation well-formedness of a child list is element-wise.
pub proof fn lemma_children_repr_wf(s: Seq<TimedStore>)
    ensures
        children_repr_wf(s) <==> (forall|i: int|
            0 <= i < s.len() ==> store_repr_wf(#[trigger] s[i].store)),
    decreases s,
{
    if s.len() > 0 {
        lemma_children_repr_wf(s.drop_last());
        if children_repr_wf(s) {
            assert forall|i: int| 0 <= i < s.len() implies store_repr_wf(#[trigger] s[i].store) by {
                if i < s.len() - 1 {
                    assert(s.drop_last()[i] == s[i]);
                }
            }
        }
        if forall|i: int| 0 <= i < s.len() ==> store_repr_wf(#[trigger] s[i].store) {
            assert forall|i: int|
                0 <= i < s.drop_last().len() implies store_repr_wf(
                #[trigger] s.drop_last()[i].store,
            ) by {
                assert(s.drop_last()[i] == s[i]);
            }
        }
    }
}

/// Wrap each backend with its identifier and the timed envelope.
pub fn with_timed_stores(components: Vec<(u64, BuiltStore)>, to: MultiplexTimeout) -> (r: Vec<
    TimedStore,
>)
    ensures
        r@.len() == components@.len(),
        forall|i: int|
            0 <= i < r@.len() ==> #[trigger] r@[i] == (TimedStore {
                id: components@[i].0,
                store: components@[i].1,
                timeout: to,
                reads_disabled: false,
                timeout_reads: false,
                timeout_writes: false,
            }),
{
    let ghost orig = components@;
    let mut components = components;
    let mut r: Vec<TimedStore> = Vec::new();
    let mut taken: usize = 0;
    let n0 = components.len();
    proof {
        assert(orig.skip(0) =~= orig);
        assert(orig.len() == n0);
    }
    while components.len() > 0
        invariant
            orig.len() <= usize::MAX,
            taken + components@.len() == orig.len(),
            components@ =~= orig.skip(taken as int),
            r@.len() == taken,
            forall|i: int|
                0 <= i < r@.len() ==> #[trigger] r@[i] == (TimedStore {
                    id: orig[i].0,
                    store: orig[i].1,
                    timeout: to,
                    reads_disabled: false,
                    timeout_reads: false,
                    timeout_writes: false,
                }),
        decreases components@.len(),
    {
        let (id, store) = components.remove(0);
        proof {
            assert(orig.skip(taken as int)[0] == orig[taken as int]);
            assert(orig.skip(taken as int).skip(1) =~= orig.skip(taken + 1));
        }
        r.push(
            TimedStore {
                id,
                store,
                timeout: to,
                reads_disabled: false,
                timeout_reads: false,
                timeout_writes: false,
            },
        );
        taken = taken + 1;
    }
    r
}

/// The grace, in seconds, a multiplexer's teardown waits when backend
/// operations are still in flight, so that native client state is not
/// released under them.
pub const TEARDOWN_GRACE_SECONDS: u64 = 5;

impl WalMultiplexedBlobstore {
    /// Assemble a multiplexer. Rejected exactly when the write quorum
    /// does not fit the number of normal backends.
    pub fn new(
        multiplex_id: u32,
        wal_queue: Wal,
        blobstores: Vec<(u64, BuiltStore)>,
        write_only_blobstores: Vec<(u64, BuiltStore)>,
        write_quorum: usize,
        timeout: Option<MultiplexTimeout>,
        scuba: Scuba,
    ) -> (r: Result<WalMultiplexedBlobstore, QuorumError>)
        requires
            forall|i: int|
                0 <= i < blobstores@.len() ==> store_repr_wf(#[trigger] blobstores@[i].1),
            forall|i: int|
                0 <= i < write_only_blobstores@.len() ==> store_repr_wf(
                    #[trigger] write_only_blobstores@[i].1,
                ),
        ensures
            match r {
                Ok(m) => {
                    &&& mux_repr_wf(m)
                    &&& m@.multiplex_id == multiplex_id
                    &&& m@.wal_queue == wal_queue@
                    &&& m@.quorum.write == write_quorum
                    &&& m@.quorum.read == blobstores@.len() - write_quorum + 1
                    &&& m@.quorum.wf(blobstores@.len() as nat)
                    &&& m@.blobstores.len() == blobstores@.len()
                    &&& (forall|i: int|
                        0 <= i < blobstores@.len() ==> #[trigger] m@.blobstores[i] == (
                        TimedStoreView {
                            id: blobstores@[i].0,
                            store: store_view(blobstores@[i].1),
                            timeout: spec_timeout_or_default(timeout),
                            reads_disabled: false,
                            timeout_reads: false,
                            timeout_writes: false,
                        }))
                    &&& m@.write_only_blobstores.len() == write_only_blobstores@.len()
                    &&& (forall|i: int|
                        0 <= i < write_only_blobstores@.len() ==> #[trigger] m@
                            .write_only_blobstores[i] == (TimedStoreView {
                            id: write_only_blobstores@[i].0,
                            store: store_view(write_only_blobstores@[i].1),
                            timeout: spec_timeout_or_default(timeout),
                            reads_disabled: false,
                            timeout_reads: false,
                            timeout_writes: false,
                        }))
                    &&& m@.scuba == scuba@
                    &&& m@.inflight_ops_counter == 0
                    &&& m@.clock == 0i64
                    &&& m@.scrub_options is None
                },
                Err(QuorumError::NotEnoughBlobstores) => write_quorum > blobstores@.len(),
                Err(QuorumError::WriteQuorumZero) => write_quorum == 0 && write_quorum
                    <= blobstores@.len(),
            },
    {
        let quorum = match MultiplexQuorum::new(blobstores.len(), write_quorum) {
            Ok(q) => q,
            Err(e) => {
                return Err(e);
            },
        };
        let to = match timeout {
            Some(t) => t,
            None => MultiplexTimeout::default(),
        };
        let ghost bs0 = blobstores@;
        let ghost wo0 = write_only_blobstores@;
        let timed = with_timed_stores(blobstores, to);
        let timed_wo = with_timed_stores(write_only_blobstores, to);
        let m = WalMultiplexedBlobstore {
            multiplex_id,
            wal_queue,
            quorum,
            blobstores: timed,
            write_only_blobstores: timed_wo,
            scuba,
            inflight_ops_counter: 0,
            clock: 0,
            scrub_options: None,
        };
        proof {
            lemma_children_views(m.blobstores@);
            lemma_children_views(m.write_only_blobstores@);
            lemma_children_repr_wf(m.blobstores@);
            lemma_children_repr_wf(m.write_only_blobstores@);
            assert forall|i: int| 0 <= i < bs0.len() implies store_repr_wf(
                #[trigger] m.blobstores@[i].store,
            ) by {
                assert(m.blobstores@[i].store == bs0[i].1);
            }
            assert forall|i: int| 0 <= i < wo0.len() implies store_repr_wf(
                #[trigger] m.write_only_blobstores@[i].store,
            ) by {
                assert(m.write_only_blobstores@[i].store == wo0[i].1);
            }
        }
        Ok(m)
    }

    /// Whether tearing this multiplexer down must pause for the grace
    /// period: operations dispatched to backends have not all completed.
    pub fn teardown_delay_needed(&self) -> (r: bool)
        ensures
            r == (self.inflight_ops_counter > 0),
    {
        self.inflight_ops_counter > 0
    }
}

/// The timeout a multiplex runs with when none is configured.
pub open spec fn spec_timeout_or_default(t: Option<MultiplexTimeout>) -> MultiplexTimeout {
    match t {
        Some(x) => x,
        None => MultiplexTimeout { read_ms: 10000u64, write_ms: 15000u64 },
    }
}

impl TimedStore {
    /// Fetch through the timed envelope.
    pub fn get(&self, key: &Vec<u8>) -> (r: Result<Option<Vec<u8>>, StoreError>)
        requires
            store_repr_wf(self.store),
        ensures
            get_res_view(r) == child_get(self@, key@),
        decreases sv_height(self@.store) + 1, 0int, 0int,
    {
        if self.timeout_reads {
            return Err(StoreError::DeadlineExceeded);
        }
        self.store.get(key)
    }

    /// Check presence through the timed envelope.
    pub fn is_present(&self, key: &Vec<u8>) -> (r: Result<BlobstoreIsPresent, StoreError>)
        requires
            store_repr_wf(self.store),
        ensures
            pres_res_view(r) == child_is_present(self@, key@),
        decreases sv_height(self@.store) + 1, 0int, 0int,
    {
        if self.timeout_reads {
            return Err(StoreError::DeadlineExceeded);
        }
        self.store.is_present(key)
    }
}

impl BuiltStore {
    /// Fetch from whatever store this is.
    pub fn get(&self, key: &Vec<u8>) -> (r: Result<Option<Vec<u8>>, StoreError>)
        requires
            store_repr_wf(*self),
        ensures
            get_res_view(r) == store_get(self@, key@),
        decreases sv_height(self@), 4int, 0int,
    {
        match self {
            BuiltStore::Leaf(l) => l.get(key),
            BuiltStore::Multiplex(m) => match m.get_impl(key) {
                Ok(Some(pair)) => Ok(Some(pair.1)),
                Ok(None) => Ok(None),
                Err(k) => Err(StoreError::Inner(Box::new(MultiplexError::Op(k)))),
            },
        }
    }

    /// Check presence on whatever store this is.
    pub fn is_present(&self, key: &Vec<u8>) -> (r: Result<BlobstoreIsPresent, StoreError>)
        requires
            store_repr_wf(*self),
        ensures
            pres_res_view(r) == store_is_present(self@, key@),
        decreases sv_height(self@), 4int, 0int,
    {
        match self {
            BuiltStore::Leaf(l) => l.is_present(key),
            BuiltStore::Multiplex(m) => match m.is_present_impl(key) {
                Ok(p) => Ok(p),
                Err(k) => Err(StoreError::Inner(Box::new(MultiplexError::Op(k)))),
            },
        }
    }
}

impl WalMultiplexedBlobstore {
    /// Read `key` from the normal backends, racing them: the first value
    /// wins; once a negative quorum answered "absent" the key is absent;
    /// errors accumulate and are fatal only when nothing decided.
    #[verifier::loop_isolation(false)]
    pub fn get_impl(&self, key: &Vec<u8>) -> (r: Result<Option<(u64, Vec<u8>)>, ErrorKind>)
        requires
            mux_repr_wf(*self),
        ensures
            mux_get_res_view(r) == mux_get(self@, key@),
        decreases mv_height(self@), 3int, 0int,
    {
        let ghost mv = self@;
        let ghost cs = mv.blobstores;
        proof {
            lemma_children_views(self.blobstores@);
            lemma_children_repr_wf(self.blobstores@);
            lemma_ch_height_bound(cs);
        }
        let n = self.blobstores.len();
        let mut used: usize = 0;
        let mut i: usize = 0;
        while i < n
            invariant
                i <= n,
                used <= i,
                used == mux_used_count(cs.take(i as int)),
            decreases n - i,
        {
            proof {
                assert(cs.take(i + 1).drop_last() =~= cs.take(i as int));
                assert(cs.take(i + 1).last() == cs[i as int]);
                assert(cs[i as int] == timed_store_view(self.blobstores@[i as int]));
            }
            if !self.blobstores[i].reads_disabled {
                used = used + 1;
            }
            i = i + 1;
        }
        proof {
            assert(cs.take(n as int) =~= cs);
        }
        let q0 = if self.quorum.read < used {
            self.quorum.read
        } else {
            used
        };
        let mut q = q0;
        let mut errs: Vec<(u64, StoreError)> = Vec::new();
        let mut j: usize = 0;
        proof {
            assert(error_list_view(errs@) =~= Seq::<(u64, StoreErrorView)>::empty());
        }
        while j < n
            invariant
                j <= n,
                mux_get(mv, key@) == get_scan(
                    cs,
                    key@,
                    j as int,
                    q as int,
                    error_list_view(errs@),
                    mux_used_count(cs),
                ),
            decreases n - j,
        {
            proof {
                assert(cs[j as int] == timed_store_view(self.blobstores@[j as int]));
                assert(store_repr_wf(self.blobstores@[j as int].store));
                assert(sv_height(cs[j as int].store) <= ch_height(cs));
            }
            if self.blobstores[j].reads_disabled {
                j = j + 1;
                continue ;
            }
            let res = self.blobstores[j].get(key);
            match res {
                Ok(Some(v)) => {
                    return Ok(Some((self.blobstores[j].id, v)));
                },
                Ok(None) => {
                    if q <= 1 {
                        return Ok(None);
                    }
                    q = q - 1;
                },
                Err(e) => {
                    let ghost pre = errs@;
                    errs.push((self.blobstores[j].id, e));
                    proof {
                        assert(errs@.drop_last() =~= pre);
                        assert(error_list_view(errs@) == error_list_view(pre).push(
                            (cs[j as int].id, store_error_view(e)),
                        ));
                    }
                },
            }
            j = j + 1;
        }
        if errs.len() == used {
            proof {
                crate::types::lemma_error_list_view_index(errs@);
            }
            Err(ErrorKind::AllFailed(errs))
        } else {
            proof {
                crate::types::lemma_error_list_view_index(errs@);
            }
            Err(ErrorKind::SomeGetsFailed(errs))
        }
    }

    /// Read `key`, returning only the data.
    pub fn get(&self, key: &Vec<u8>) -> (r: Result<Option<Vec<u8>>, ErrorKind>)
        requires
            mux_repr_wf(*self),
        ensures
            mux_data_res_view(r) == mux_get_data(self@, key@),
    {
        match self.get_impl(key) {
            Ok(Some(pair)) => Ok(Some(pair.1)),
            Ok(None) => Ok(None),
            Err(k) => Err(k),
        }
    }

    /// Check whether `key` is present: the first Present answer wins, a
    /// negative quorum of Absent answers decides absence, and anything
    /// less decided is advisory so the caller may still opportunistically
    /// write.
    #[verifier::loop_isolation(false)]
    pub fn is_present_impl(&self, key: &Vec<u8>) -> (r: Result<BlobstoreIsPresent, ErrorKind>)
        requires
            mux_repr_wf(*self),
        ensures
            mux_pres_res_view(r) == mux_is_present(self@, key@),
        decreases mv_height(self@), 3int, 0int,
    {
        let ghost mv = self@;
        let ghost cs = mv.blobstores;
        proof {
            lemma_children_views(self.blobstores@);
            lemma_children_repr_wf(self.blobstores@);
            lemma_ch_height_bound(cs);
        }
        let n = self.blobstores.len();
        let mut q = self.quorum.read;
        let mut errs: Vec<(u64, StoreError)> = Vec::new();
        let mut j: usize = 0;
        proof {
            assert(error_list_view(errs@) =~= Seq::<(u64, StoreErrorView)>::empty());
        }
        while j < n
            invariant
                j <= n,
                mux_is_present(mv, key@) == pres_scan(
                    cs,
                    key@,
                    j as int,
                    q as int,
                    error_list_view(errs@),
                ),
            decreases n - j,
        {
            proof {
                assert(cs[j as int] == timed_store_view(self.blobstores@[j as int]));
                assert(store_repr_wf(self.blobstores@[j as int].store));
                assert(sv_height(cs[j as int].store) <= ch_height(cs));
            }
            let res = self.blobstores[j].is_present(key);
            match res {
                Ok(BlobstoreIsPresent::Present) => {
                    return Ok(BlobstoreIsPresent::Present);
                },
                Ok(BlobstoreIsPresent::Absent) => {
                    if q <= 1 {
                        return Ok(BlobstoreIsPresent::Absent);
                    }
                    q = q - 1;
                },
                Ok(BlobstoreIsPresent::ProbablyNotPresent(inner)) => {
                    let ghost pre = errs@;
                    let ghost inner_k = crate::types::error_kind_view(*inner);
                    errs.push(
                        (
                            self.blobstores[j].id,
                            StoreError::Inner(Box::new(MultiplexError::Op(*inner))),
                        ),
                    );
                    proof {
                        assert(errs@.drop_last() =~= pre);
                        assert(store_error_view(errs@.last().1) == StoreErrorView::Inner(
                            crate::types::MultiplexErrorView::Op(inner_k),
                        ));
                        assert(error_list_view(errs@) == error_list_view(pre).push(
                            (cs[j as int].id, StoreErrorView::Inner(
                                crate::types::MultiplexErrorView::Op(inner_k),
                            )),
                        ));
                    }
                },
                Err(e) => {
                    let ghost pre = errs@;
                    errs.push((self.blobstores[j].id, e));
                    proof {
                        assert(errs@.drop_last() =~= pre);
                        assert(error_list_view(errs@) == error_list_view(pre).push(
                            (cs[j as int].id, store_error_view(e)),
                        ));
                    }
                },
            }
            j = j + 1;
        }
        if errs.len() == self.blobstores.len() {
            proof {
                crate::types::lemma_error_list_view_index(errs@);
            }
            Err(ErrorKind::AllFailed(errs))
        } else {
            proof {
                crate::types::lemma_error_list_view_index(errs@);
            }
            Ok(BlobstoreIsPresent::ProbablyNotPresent(Box::new(ErrorKind::SomeIsPresentsFailed(errs))))
        }
    }

    /// Check whether `key` is present.
    pub fn is_present(&self, key: &Vec<u8>) -> (r: Result<BlobstoreIsPresent, ErrorKind>)
        requires
            mux_repr_wf(*self),
        ensures
            mux_pres_res_view(r) == mux_is_present(self@, key@),
    {
        self.is_present_impl(key)
    }
}

impl TimedStore {
    /// Write through the timed envelope.
    pub fn put(&mut self, key: &Vec<u8>, value: &Vec<u8>, behaviour: Option<PutBehaviour>) -> (r:
        Result<OverwriteStatus, StoreError>)
        requires
            store_repr_wf(old(self).store),
        ensures
            store_repr_wf(final(self).store),
            final(self)@ == child_after_put(old(self)@, key@, value@, behaviour),
            put_res_view(r) == child_put_result(old(self)@, key@, behaviour),
        decreases sv_height(old(self)@.store) + 1, 0int, 0int,
    {
        if self.timeout_writes {
            return Err(StoreError::DeadlineExceeded);
        }
        self.store.put(key, value, behaviour)
    }

    /// Unlink through the timed envelope.
    pub fn unlink(&mut self, key: &Vec<u8>) -> (r: Result<(), StoreError>)
        requires
            store_repr_wf(old(self).store),
        ensures
            store_repr_wf(final(self).store),
            final(self)@ == child_after_unlink(old(self)@, key@),
            unlink_res_view(r) == child_unlink_raw(old(self)@, key@),
        decreases sv_height(old(self)@.store) + 1, 0int, 0int,
    {
        if self.timeout_writes {
            return Err(StoreError::DeadlineExceeded);
        }
        self.store.unlink(key)
    }
}

impl BuiltStore {
    /// Write to whatever store this is.
    pub fn put(&mut self, key: &Vec<u8>, value: &Vec<u8>, behaviour: Option<PutBehaviour>) -> (r:
        Result<OverwriteStatus, StoreError>)
        requires
            store_repr_wf(*old(self)),
        ensures
            store_repr_wf(*final(self)),
            final(self)@ == store_after_put(old(self)@, key@, value@, behaviour),
            put_res_view(r) == store_put_result(old(self)@, key@, behaviour),
        decreases sv_height(old(self)@), 4int, 0int,
    {
        match self {
            BuiltStore::Leaf(l) => l.put(key, value, behaviour),
            BuiltStore::Multiplex(m) => match m.put_impl(key, value, behaviour) {
                Ok(st) => Ok(st),
                Err(e) => Err(StoreError::Inner(Box::new(e))),
            },
        }
    }

    /// Unlink from whatever store this is.
    pub fn unlink(&mut self, key: &Vec<u8>) -> (r: Result<(), StoreError>)
        requires
            store_repr_wf(*old(self)),
        ensures
            store_repr_wf(*final(self)),
            final(self)@ == store_after_unlink(old(self)@, key@),
            unlink_res_view(r) == store_unlink_result(old(self)@, key@),
        decreases sv_height(old(self)@), 4int, 0int,
    {
        match self {
            BuiltStore::Leaf(l) => l.unlink(key),
            BuiltStore::Multiplex(m) => match m.unlink_impl(key) {
                Ok(()) => Ok(()),
                Err(k) => Err(StoreError::Inner(Box::new(MultiplexError::Op(k)))),
            },
        }
    }
}

impl WalMultiplexedBlobstore {
    /// Replicate a put: record the intent in the write-ahead log, then
    /// write to every normal backend, succeeding at the write quorum.
    /// Write-only backends join once quorum is reached. The intent entry
    /// is deleted exactly when every backend acknowledged; otherwise it
    /// remains for the healer.
    ///
    /// Once quorum is reached, completing the remaining replicas is a
    /// commitment to the write-ahead-log contract: the state this
    /// operation promises includes every backend's attempt, so a runner
    /// that drives backends concurrently must keep driving them after
    /// reporting success to its caller.
    #[verifier::loop_isolation(false)]
    #[verifier::rlimit(100)]
    pub fn put_impl(
        &mut self,
        key: &Vec<u8>,
        value: &Vec<u8>,
        put_behaviour: Option<PutBehaviour>,
    ) -> (r: Result<OverwriteStatus, MultiplexError>)
        requires
            mux_repr_wf(*old(self)),
        ensures
            mux_repr_wf(*final(self)),
            final(self)@ == mux_after_put(old(self)@, key@, value@, put_behaviour),
            mux_put_res_view(r) == mux_put_result(old(self)@, key@, put_behaviour),
        decreases mv_height(old(self)@), 3int, 0int,
    {
        let ghost mv0 = self@;
        let ghost cs0 = mv0.blobstores;
        let ghost wo0 = mv0.write_only_blobstores;
        let ghost ex0 = self.blobstores@;
        let ghost exw0 = self.write_only_blobstores@;
        proof {
            lemma_children_views(self.blobstores@);
            lemma_children_views(self.write_only_blobstores@);
            lemma_children_repr_wf(self.blobstores@);
            lemma_children_repr_wf(self.write_only_blobstores@);
            lemma_ch_height_bound(cs0);
            lemma_ch_height_bound(wo0);
        }
        // Consume a timestamp and record the intent; if the log refuses,
        // the whole put fails and no backend write is attempted.
        let ts = self.clock;
        if self.clock < i64::MAX {
            self.clock = self.clock + 1;
        }
        let entry = WalEntry::new(clone_bytes(key), self.multiplex_id, ts, value.len() as u64);
        let entry_again = WalEntry::new(
            clone_bytes(key),
            self.multiplex_id,
            ts,
            value.len() as u64,
        );
        proof {
            assert(entry@ == put_wal_entry(mv0, key@, value@));
            assert(entry_again@ == put_wal_entry(mv0, key@, value@));
        }
        match self.wal_queue.log(entry) {
            Err(_) => {
                proof {
                    assert(self@ =~= mux_after_put(mv0, key@, value@, put_behaviour));
                }
                return Err(MultiplexError::WalAppendFailed);
            },
            Ok(()) => {},
        }
        let ghost w1 = self.wal_queue;
        let ghost c1 = self.clock;
        let ghost sc1 = self.scuba;
        // Launch one put against every normal backend.
        let n = self.blobstores.len();
        let mut successes: usize = 0;
        let mut put_errors: Vec<(u64, StoreError)> = Vec::new();
        let mut i: usize = 0;
        proof {
            assert(error_list_view(put_errors@) =~= Seq::<(u64, StoreErrorView)>::empty());
            assert(put_errs_from(cs0, key@, put_behaviour, 0int) =~= error_list_view(put_errors@)
                + put_errs_from(cs0, key@, put_behaviour, 0int));
        }
        while i < n
            invariant
                i <= n,
                successes <= i,
                n == self.blobstores@.len(),
                forall|j: int| i <= j < n ==> self.blobstores@[j] == ex0[j],
                forall|j: int|
                    0 <= j < i ==> (#[trigger] self.blobstores@[j])@ == child_after_put(
                        cs0[j],
                        key@,
                        value@,
                        put_behaviour,
                    ),
                forall|j: int|
                    0 <= j < i ==> store_repr_wf((#[trigger] self.blobstores@[j]).store),
                put_ok_from(cs0, key@, put_behaviour, 0int) == successes + put_ok_from(
                    cs0,
                    key@,
                    put_behaviour,
                    i as int,
                ),
                put_errs_from(cs0, key@, put_behaviour, 0int) =~= error_list_view(put_errors@)
                    + put_errs_from(cs0, key@, put_behaviour, i as int),
                self.wal_queue == w1,
                self.clock == c1,
                self.scuba == sc1,
                self.multiplex_id == old(self).multiplex_id,
                self.quorum == old(self).quorum,
                self.write_only_blobstores@ == exw0,
                self.inflight_ops_counter == old(self).inflight_ops_counter,
                self.scrub_options == old(self).scrub_options,
            decreases n - i,
        {
            proof {
                assert(self.blobstores@[i as int] == ex0[i as int]);
                assert(cs0[i as int] == timed_store_view(ex0[i as int]));
                assert(sv_height(cs0[i as int].store) <= ch_height(cs0));
                assert(store_repr_wf(ex0[i as int].store));
            }
            let res = self.blobstores[i].put(key, value, put_behaviour);
            let ghost cres = child_put_result(cs0[i as int], key@, put_behaviour);
            match res {
                Ok(_) => {
                    successes = successes + 1;
                },
                Err(e) => {
                    let ghost pre = put_errors@;
                    put_errors.push((self.blobstores[i].id, e));
                    proof {
                        assert(put_errors@.drop_last() =~= pre);
                        assert(self.blobstores@[i as int]@.id == cs0[i as int].id);
                        assert(error_list_view(put_errors@) == error_list_view(pre).push(
                            (cs0[i as int].id, store_error_view(e)),
                        ));
                        assert(cres matches Err(ev) && ev == store_error_view(e));
                        assert(put_errs_from(cs0, key@, put_behaviour, i as int) =~= seq![
                            (cs0[i as int].id, store_error_view(e)),
                        ] + put_errs_from(cs0, key@, put_behaviour, i + 1));
                        assert(error_list_view(put_errors@) + put_errs_from(
                            cs0,
                            key@,
                            put_behaviour,
                            i + 1,
                        ) =~= error_list_view(pre) + put_errs_from(
                            cs0,
                            key@,
                            put_behaviour,
                            i as int,
                        ));
                    }
                },
            }
            i = i + 1;
        }
        proof {
            assert(put_ok_from(cs0, key@, put_behaviour, n as int) == 0);
            assert(put_errs_from(cs0, key@, put_behaviour, n as int) =~= Seq::<
                (u64, StoreErrorView),
            >::empty());
            assert(put_errs_from(cs0, key@, put_behaviour, 0int) =~= error_list_view(put_errors@));
            lemma_children_after_put_index(cs0, key@, value@, put_behaviour);
            lemma_children_views(self.blobstores@);
            assert(children_views(self.blobstores@) =~= children_after_put(
                cs0,
                key@,
                value@,
                put_behaviour,
            ));
            lemma_children_repr_wf(self.blobstores@);
        }
        if successes >= self.quorum.write {
            // Quorum reached: drive the write-only backends too.
            let wn = self.write_only_blobstores.len();
            let mut k: usize = 0;
            let mut wo_failed = false;
            let ghost bs1 = self.blobstores@;
            let ghost mut wo_pref: Seq<(u64, StoreErrorView)> = Seq::empty();
            proof {
                assert(put_errs_from(wo0, key@, put_behaviour, 0int) =~= wo_pref + put_errs_from(
                    wo0,
                    key@,
                    put_behaviour,
                    0int,
                ));
            }
            while k < wn
                invariant
                    k <= wn,
                    wn == self.write_only_blobstores@.len(),
                    forall|j: int| k <= j < wn ==> self.write_only_blobstores@[j] == exw0[j],
                    forall|j: int|
                        0 <= j < k ==> (#[trigger] self.write_only_blobstores@[j])@
                            == child_after_put(wo0[j], key@, value@, put_behaviour),
                    forall|j: int|
                        0 <= j < k ==> store_repr_wf(
                            (#[trigger] self.write_only_blobstores@[j]).store,
                        ),
                    put_errs_from(wo0, key@, put_behaviour, 0int) =~= wo_pref + put_errs_from(
                        wo0,
                        key@,
                        put_behaviour,
                        k as int,
                    ),
                    wo_failed == (wo_pref.len() != 0),
                    self.blobstores@ == bs1,
                    self.wal_queue == w1,
                    self.clock == c1,
                    self.scuba == sc1,
                    self.multiplex_id == old(self).multiplex_id,
                    self.quorum == old(self).quorum,
                    self.inflight_ops_counter == old(self).inflight_ops_counter,
                    self.scrub_options == old(self).scrub_options,
                decreases wn - k,
            {
                proof {
                    assert(self.write_only_blobstores@[k as int] == exw0[k as int]);
                    assert(wo0[k as int] == timed_store_view(exw0[k as int]));
                    assert(sv_height(wo0[k as int].store) <= ch_height(wo0));
                    assert(store_repr_wf(exw0[k as int].store));
                }
                let res = self.write_only_blobstores[k].put(key, value, put_behaviour);
                match res {
                    Ok(_) => {
                        proof {
                            assert(put_errs_from(wo0, key@, put_behaviour, k as int)
                                =~= put_errs_from(wo0, key@, put_behaviour, k + 1));
                        }
                    },
                    Err(e) => {
                        wo_failed = true;
                        proof {
                            let ghost pre = wo_pref;
                            wo_pref = wo_pref.push((wo0[k as int].id, store_error_view(e)));
                            assert(put_errs_from(wo0, key@, put_behaviour, k as int) =~= seq![
                                (wo0[k as int].id, store_error_view(e)),
                            ] + put_errs_from(wo0, key@, put_behaviour, k + 1));
                            assert(wo_pref + put_errs_from(wo0, key@, put_behaviour, k + 1)
                                =~= pre + put_errs_from(wo0, key@, put_behaviour, k as int));
                        }
                    },
                }
                k = k + 1;
            }
            proof {
                assert(put_errs_from(wo0, key@, put_behaviour, wn as int) =~= Seq::<
                    (u64, StoreErrorView),
                >::empty());
                assert(put_errs_from(wo0, key@, put_behaviour, 0int) =~= wo_pref);
                lemma_children_after_put_index(wo0, key@, value@, put_behaviour);
                lemma_children_views(self.write_only_blobstores@);
                assert(children_views(self.write_only_blobstores@) =~= children_after_put(
                    wo0,
                    key@,
                    value@,
                    put_behaviour,
                ));
                lemma_children_repr_wf(self.write_only_blobstores@);
            }
            // Every replica acknowledged with no intermediate error: the
            // healer has no work, so drop the intent entry.
            if put_errors.len() == 0 && !wo_failed {
                self.wal_queue.delete_by_key(&entry_again);
            }
            proof {
                assert(self@ =~= mux_after_put(mv0, key@, value@, put_behaviour));
            }
            Ok(OverwriteStatus::NotChecked)
        } else {
            proof {
                assert(self@ =~= mux_after_put(mv0, key@, value@, put_behaviour));
                crate::types::lemma_error_list_view_index(put_errors@);
            }
            if put_errors.len() == self.blobstores.len() {
                Err(MultiplexError::Op(ErrorKind::AllFailed(put_errors)))
            } else {
                Err(MultiplexError::Op(ErrorKind::SomePutsFailed(put_errors)))
            }
        }
    }

    /// Unlink `key` from every normal backend. A failed unlink is
    /// rescued when the key is observably absent afterwards: a put
    /// commits at quorum, so the key may never have reached this
    /// backend. Success means no backend still holds the key.
    #[verifier::loop_isolation(false)]
    #[verifier::rlimit(100)]
    pub fn unlink_impl(&mut self, key: &Vec<u8>) -> (r: Result<(), ErrorKind>)
        requires
            mux_repr_wf(*old(self)),
        ensures
            mux_repr_wf(*final(self)),
            final(self)@ == mux_after_unlink(old(self)@, key@),
            mux_unlink_res_view(r) == mux_unlink_result(old(self)@, key@),
        decreases mv_height(old(self)@), 3int, 0int,
    {
        let ghost mv0 = self@;
        let ghost cs0 = mv0.blobstores;
        let ghost ex0 = self.blobstores@;
        proof {
            lemma_children_views(self.blobstores@);
            lemma_children_repr_wf(self.blobstores@);
            lemma_ch_height_bound(cs0);
        }
        let n = self.blobstores.len();
        let mut unlink_errors: Vec<(u64, StoreError)> = Vec::new();
        let mut i: usize = 0;
        proof {
            assert(error_list_view(unlink_errors@) =~= Seq::<(u64, StoreErrorView)>::empty());
            assert(unlink_errs_from(cs0, key@, 0int) =~= error_list_view(unlink_errors@)
                + unlink_errs_from(cs0, key@, 0int));
        }
        while i < n
            invariant
                i <= n,
                n == self.blobstores@.len(),
                forall|j: int| i <= j < n ==> self.blobstores@[j] == ex0[j],
                forall|j: int|
                    0 <= j < i ==> (#[trigger] self.blobstores@[j])@ == child_after_unlink(
                        cs0[j],
                        key@,
                    ),
                forall|j: int|
                    0 <= j < i ==> store_repr_wf((#[trigger] self.blobstores@[j]).store),
                unlink_errs_from(cs0, key@, 0int) =~= error_list_view(unlink_errors@)
                    + unlink_errs_from(cs0, key@, i as int),
                self.wal_queue == old(self).wal_queue,
                self.clock == old(self).clock,
                self.scuba == old(self).scuba,
                self.multiplex_id == old(self).multiplex_id,
                self.quorum == old(self).quorum,
                self.write_only_blobstores@ == old(self).write_only_blobstores@,
                self.inflight_ops_counter == old(self).inflight_ops_counter,
                self.scrub_options == old(self).scrub_options,
            decreases n - i,
        {
            proof {
                assert(self.blobstores@[i as int] == ex0[i as int]);
                assert(cs0[i as int] == timed_store_view(ex0[i as int]));
                assert(sv_height(cs0[i as int].store) <= ch_height(cs0));
                assert(store_repr_wf(ex0[i as int].store));
            }
            let res = self.blobstores[i].unlink(key);
            let rescued: Result<(), StoreError> = match res {
                Ok(()) => Ok(()),
                Err(e) => {
                    // The unlink failed; if the key is absent anyway,
                    // treat the unlink as successful.
                    match self.blobstores[i].is_present(key) {
                        Ok(BlobstoreIsPresent::Absent) => Ok(()),
                        _ => Err(e),
                    }
                },
            };
            proof {
                assert(self.blobstores@[i as int]@ == child_after_unlink(cs0[i as int], key@));
            }
            match rescued {
                Ok(()) => {
                    proof {
                        assert(child_unlink_rescued(cs0[i as int], key@) is Ok);
                    }
                },
                Err(e) => {
                    let ghost pre = unlink_errors@;
                    unlink_errors.push((self.blobstores[i].id, e));
                    proof {
                        assert(unlink_errors@.drop_last() =~= pre);
                        assert(self.blobstores@[i as int]@.id == cs0[i as int].id);
                        assert(error_list_view(unlink_errors@) == error_list_view(pre).push(
                            (cs0[i as int].id, store_error_view(e)),
                        ));
                        assert(child_unlink_rescued(cs0[i as int], key@) matches Err(ev) && ev
                            == store_error_view(e));
                        assert(unlink_errs_from(cs0, key@, i as int) =~= seq![
                            (cs0[i as int].id, store_error_view(e)),
                        ] + unlink_errs_from(cs0, key@, i + 1));
                        assert(error_list_view(unlink_errors@) + unlink_errs_from(
                            cs0,
                            key@,
                            i + 1,
                        ) =~= error_list_view(pre) + unlink_errs_from(cs0, key@, i as int));
                    }
                },
            }
            i = i + 1;
        }
        proof {
            assert(unlink_errs_from(cs0, key@, n as int) =~= Seq::<(u64, StoreErrorView)>::empty());
            assert(unlink_errs_from(cs0, key@, 0int) =~= error_list_view(unlink_errors@));
            lemma_children_after_unlink_index(cs0, key@);
            lemma_children_views(self.blobstores@);
            assert(children_views(self.blobstores@) =~= children_after_unlink(cs0, key@));
            lemma_children_repr_wf(self.blobstores@);
            assert(self@ =~= mux_after_unlink(mv0, key@));
            crate::types::lemma_error_list_view_index(unlink_errors@);
        }
        if unlink_errors.len() == 0 {
            Ok(())
        } else if unlink_errors.len() == self.blobstores.len() {
            Err(ErrorKind::AllFailed(unlink_errors))
        } else {
            Err(ErrorKind::SomeUnlinksFailed(unlink_errors))
        }
    }

    /// Store `value` under `key`.
    pub fn put(&mut self, key: &Vec<u8>, value: &Vec<u8>) -> (r: Result<(), MultiplexError>)
        requires
            mux_repr_wf(*old(self)),
        ensures
            mux_repr_wf(*final(self)),
            final(self)@ == mux_after_put(old(self)@, key@, value@, None),
            (r is Ok) == (mux_put_result(old(self)@, key@, None) is Ok),
            r matches Err(e) ==> mux_put_result(old(self)@, key@, None) == Err::<
                OverwriteStatus,
                crate::types::MultiplexErrorView,
            >(crate::types::multiplex_error_view(e)),
    {
        match self.put_with_status(key, value) {
            Ok(_) => Ok(()),
            Err(e) => Err(e),
        }
    }

    /// Store `value` under `key` with an explicit put behaviour.
    pub fn put_explicit(&mut self, key: &Vec<u8>, value: &Vec<u8>, put_behaviour: PutBehaviour) -> (r:
        Result<OverwriteStatus, MultiplexError>)
        requires
            mux_repr_wf(*old(self)),
        ensures
            mux_repr_wf(*final(self)),
            final(self)@ == mux_after_put(old(self)@, key@, value@, Some(put_behaviour)),
            mux_put_res_view(r) == mux_put_result(old(self)@, key@, Some(put_behaviour)),
    {
        self.put_impl(key, value, Some(put_behaviour))
    }

    /// Store `value` under `key`, reporting the overwrite status, which
    /// at this layer is always unchecked: individual backends may
    /// disagree.
    pub fn put_with_status(&mut self, key: &Vec<u8>, value: &Vec<u8>) -> (r: Result<
        OverwriteStatus,
        MultiplexError,
    >)
        requires
            mux_repr_wf(*old(self)),
        ensures
            mux_repr_wf(*final(self)),
            final(self)@ == mux_after_put(old(self)@, key@, value@, None),
            mux_put_res_view(r) == mux_put_result(old(self)@, key@, None),
    {
        self.put_impl(key, value, None)
    }

    /// Unlink `key` from every normal backend.
    pub fn unlink(&mut self, key: &Vec<u8>) -> (r: Result<(), ErrorKind>)
        requires
            mux_repr_wf(*old(self)),
        ensures
            mux_repr_wf(*final(self)),
            final(self)@ == mux_after_unlink(old(self)@, key@),
            mux_unlink_res_view(r) == mux_unlink_result(old(self)@, key@),
    {
        self.unlink_impl(key)
    }
}

} // verus!
