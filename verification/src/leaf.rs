//! A single backend: a physical store together with the decorator stack
//! the factory wrapped around it. The decorators that can change an
//! outcome are modelled exactly (read-only, chaos, the disabled
//! sentinel); throttling and delay only shape latency and are carried as
//! configuration.

use vstd::prelude::*;
use crate::chaos::ChaosOptions;
use crate::kv::KvStore;
use crate::kv::clone_bytes;
use crate::options::DelayOptions;
use crate::options::PutFormat;
use crate::options::ThrottleOptions;
use crate::types::BlobstoreIsPresent;
use crate::types::IsPresentView;
use crate::types::OverwriteStatus;
use crate::types::PutBehaviour;
use crate::types::StoreError;
use crate::types::StoreErrorView;
use crate::types::get_res_view;
use crate::types::pres_res_view;
use crate::types::put_res_view;
use crate::types::unlink_res_view;

verus! {

/// Which physical store a backend is, with its connection parameters.
/// The stores themselves are external collaborators; the model keeps
/// their blob state in `Leaf::kv`.
#[derive(Debug)]
pub enum PhysicalKind {
    /// A local file tree rooted at `path`.
    Files { path: String },
    /// A single-file relational store at `path`.
    Sqlite { path: String },
    /// A sharded relational store behind `tier_name`.
    Mysql { tier_name: String, shard_count: Option<u64> },
    /// An object-storage bucket.
    ObjectStore { bucket: String },
    /// A sentinel that rejects every operation; used to blacklist a
    /// backend during a migration.
    Disabled,
}

/// Mathematical view of `PhysicalKind`.
pub enum PhysicalKindView {
    Files { path: Seq<char> },
    Sqlite { path: Seq<char> },
    Mysql { tier_name: Seq<char>, shard_count: Option<u64> },
    ObjectStore { bucket: Seq<char> },
    Disabled,
}

pub open spec fn physical_kind_view(k: PhysicalKind) -> PhysicalKindView {
    match k {
        PhysicalKind::Files { path } => PhysicalKindView::Files { path: path@ },
        PhysicalKind::Sqlite { path } => PhysicalKindView::Sqlite { path: path@ },
        PhysicalKind::Mysql { tier_name, shard_count } => PhysicalKindView::Mysql {
            tier_name: tier_name@,
            shard_count,
        },
        PhysicalKind::ObjectStore { bucket } => PhysicalKindView::ObjectStore { bucket: bucket@ },
        PhysicalKind::Disabled => PhysicalKindView::Disabled,
    }
}

impl View for PhysicalKind {
    type V = PhysicalKindView;

    open spec fn view(&self) -> PhysicalKindView {
        physical_kind_view(*self)
    }
}

/// A backend with its decorator stack.
pub struct Leaf {
    pub kind: PhysicalKind,
    pub kv: KvStore,
    /// The behaviour used when the caller does not pass one explicitly.
    pub put_behaviour: PutBehaviour,
    /// The read-only decorator: rejects puts and unlinks.
    pub read_only: bool,
    /// The chaos decorator: injects synthetic failures.
    pub chaos: ChaosOptions,
    /// The throttle decorator: bounds queries per second, never drops.
    pub throttle: ThrottleOptions,
    /// The delay decorator: adds latency, never changes outcomes.
    pub delay: DelayOptions,
    /// A pack wrapper, if any: a transparent packing codec.
    pub pack: Option<PutFormat>,
}

/// Mathematical view of `Leaf`.
pub struct LeafView {
    pub kind: PhysicalKindView,
    pub kv: Map<Seq<u8>, Seq<u8>>,
    pub put_behaviour: PutBehaviour,
    pub read_only: bool,
    pub chaos: ChaosOptions,
    pub throttle: ThrottleOptions,
    pub delay: DelayOptions,
    pub pack: Option<PutFormat>,
}

pub open spec fn leaf_view(l: Leaf) -> LeafView {
    LeafView {
        kind: physical_kind_view(l.kind),
        kv: l.kv@,
        put_behaviour: l.put_behaviour,
        read_only: l.read_only,
        chaos: l.chaos,
        throttle: l.throttle,
        delay: l.delay,
        pack: l.pack,
    }
}

impl View for Leaf {
    type V = LeafView;

    open spec fn view(&self) -> LeafView {
        leaf_view(*self)
    }
}

/// Whether this backend is the disabled sentinel.
pub open spec fn leaf_disabled(l: LeafView) -> bool {
    l.kind is Disabled
}

/// The behaviour a put runs with: the caller's explicit choice, or the
/// backend's configured one.
pub open spec fn spec_effective_behaviour(l: LeafView, b: Option<PutBehaviour>) -> PutBehaviour {
    match b {
        Some(x) => x,
        None => l.put_behaviour,
    }
}

/// What a get of `key` returns on this backend.
pub open spec fn leaf_get(l: LeafView, key: Seq<u8>) -> Result<Option<Seq<u8>>, StoreErrorView> {
    if l.chaos.spec_read_fires(key) {
        Err(StoreErrorView::ChaosInjectedRead)
    } else if leaf_disabled(l) {
        Err(StoreErrorView::DisabledByConfig)
    } else if l.kv.contains_key(key) {
        Ok(Some(l.kv[key]))
    } else {
        Ok(None)
    }
}

/// What a presence check of `key` returns on this backend. A single
/// standard backend can always answer, so the undecided state never
/// appears here.
pub open spec fn leaf_is_present(l: LeafView, key: Seq<u8>) -> Result<
    IsPresentView,
    StoreErrorView,
> {
    if l.chaos.spec_read_fires(key) {
        Err(StoreErrorView::ChaosInjectedRead)
    } else if leaf_disabled(l) {
        Err(StoreErrorView::DisabledByConfig)
    } else if l.kv.contains_key(key) {
        Ok(IsPresentView::Present)
    } else {
        Ok(IsPresentView::Absent)
    }
}

/// What a put of `key` returns on this backend.
pub open spec fn leaf_put_result(
    l: LeafView,
    key: Seq<u8>,
    b: Option<PutBehaviour>,
) -> Result<OverwriteStatus, StoreErrorView> {
    if l.read_only {
        Err(StoreErrorView::ReadOnlyRejected)
    } else if l.chaos.spec_write_fires(key) {
        Err(StoreErrorView::ChaosInjectedWrite)
    } else if leaf_disabled(l) {
        Err(StoreErrorView::DisabledByConfig)
    } else {
        match spec_effective_behaviour(l, b) {
            PutBehaviour::Overwrite => Ok(OverwriteStatus::NotChecked),
            PutBehaviour::OverwriteAndLog => if l.kv.contains_key(key) {
                Ok(OverwriteStatus::Overwrote)
            } else {
                Ok(OverwriteStatus::NotChecked)
            },
            PutBehaviour::IfAbsent => if l.kv.contains_key(key) {
                Ok(OverwriteStatus::PreventedOverwrite)
            } else {
                Ok(OverwriteStatus::NotChecked)
            },
        }
    }
}

/// The backend state after a put of `key`.
pub open spec fn leaf_after_put(
    l: LeafView,
    key: Seq<u8>,
    value: Seq<u8>,
    b: Option<PutBehaviour>,
) -> LeafView {
    if leaf_put_result(l, key, b) is Err {
        l
    } else if spec_effective_behaviour(l, b) is IfAbsent && l.kv.contains_key(key) {
        l
    } else {
        LeafView { kv: l.kv.insert(key, value), ..l }
    }
}

/// What an unlink of `key` returns on this backend. Unlinking a key the
/// backend does not hold is an error here; the multiplexer rescues it.
pub open spec fn leaf_unlink_result(l: LeafView, key: Seq<u8>) -> Result<(), StoreErrorView> {
    if l.read_only {
        Err(StoreErrorView::ReadOnlyRejected)
    } else if l.chaos.spec_write_fires(key) {
        Err(StoreErrorView::ChaosInjectedWrite)
    } else if leaf_disabled(l) {
        Err(StoreErrorView::DisabledByConfig)
    } else if l.kv.contains_key(key) {
        Ok(())
    } else {
        Err(StoreErrorView::UnlinkMissingKey)
    }
}

/// The backend state after an unlink of `key`.
pub open spec fn leaf_after_unlink(l: LeafView, key: Seq<u8>) -> LeafView {
    if leaf_unlink_result(l, key) is Ok {
        LeafView { kv: l.kv.remove(key), ..l }
    } else {
        l
    }
}

impl Leaf {
    /// The representation invariant: the blob state holds each key once.
    pub open spec fn wf(&self) -> bool {
        self.kv.wf()
    }

    /// A fresh, empty, undecorated backend.
    pub fn new(kind: PhysicalKind, put_behaviour: PutBehaviour) -> (r: Leaf)
        ensures
            r.wf(),
            r@ == (LeafView {
                kind: kind@,
                kv: Map::<Seq<u8>, Seq<u8>>::empty(),
                put_behaviour,
                read_only: false,
                chaos: ChaosOptions { error_sample_read: None, error_sample_write: None },
                throttle: ThrottleOptions { read_qps: None, write_qps: None },
                delay: DelayOptions { get_mean_micros: None, put_mean_micros: None },
                pack: None,
            }),
    {
        Leaf {
            kind,
            kv: KvStore::new(),
            put_behaviour,
            read_only: false,
            chaos: ChaosOptions { error_sample_read: None, error_sample_write: None },
            throttle: ThrottleOptions { read_qps: None, write_qps: None },
            delay: DelayOptions { get_mean_micros: None, put_mean_micros: None },
            pack: None,
        }
    }

    /// Fetch the value stored under `key`, if any.
    pub fn get(&self, key: &Vec<u8>) -> (r: Result<Option<Vec<u8>>, StoreError>)
        requires
            self.wf(),
        ensures
            get_res_view(r) == leaf_get(self@, key@),
    {
        if self.chaos.read_fires(key) {
            return Err(StoreError::ChaosInjectedRead);
        }
        if let PhysicalKind::Disabled = self.kind {
            return Err(StoreError::DisabledByConfig);
        }
        match self.kv.get(key) {
            Some(v) => Ok(Some(clone_bytes(v))),
            None => Ok(None),
        }
    }

    /// Whether `key` is stored here.
    pub fn is_present(&self, key: &Vec<u8>) -> (r: Result<BlobstoreIsPresent, StoreError>)
        requires
            self.wf(),
        ensures
            pres_res_view(r) == leaf_is_present(self@, key@),
    {
        if self.chaos.read_fires(key) {
            return Err(StoreError::ChaosInjectedRead);
        }
        if let PhysicalKind::Disabled = self.kind {
            return Err(StoreError::DisabledByConfig);
        }
        if self.kv.contains(key) {
            Ok(BlobstoreIsPresent::Present)
        } else {
            Ok(BlobstoreIsPresent::Absent)
        }
    }

    /// Store `value` under `key`, honouring the put behaviour.
    pub fn put(&mut self, key: &Vec<u8>, value: &Vec<u8>, behaviour: Option<PutBehaviour>) -> (r:
        Result<OverwriteStatus, StoreError>)
        requires
            old(self).wf(),
        ensures
            final(self).wf(),
            final(self)@ == leaf_after_put(old(self)@, key@, value@, behaviour),
            put_res_view(r) == leaf_put_result(old(self)@, key@, behaviour),
    {
        if self.read_only {
            return Err(StoreError::ReadOnlyRejected);
        }
        if self.chaos.write_fires(key) {
            return Err(StoreError::ChaosInjectedWrite);
        }
        if let PhysicalKind::Disabled = self.kind {
            return Err(StoreError::DisabledByConfig);
        }
        let b = match behaviour {
            Some(x) => x,
            None => self.put_behaviour,
        };
        match b {
            PutBehaviour::Overwrite => {
                self.kv.insert(clone_bytes(key), clone_bytes(value));
                Ok(OverwriteStatus::NotChecked)
            },
            PutBehaviour::OverwriteAndLog => {
                let was_present = self.kv.contains(key);
                self.kv.insert(clone_bytes(key), clone_bytes(value));
                if was_present {
                    Ok(OverwriteStatus::Overwrote)
                } else {
                    Ok(OverwriteStatus::NotChecked)
                }
            },
            PutBehaviour::IfAbsent => {
                if self.kv.contains(key) {
                    Ok(OverwriteStatus::PreventedOverwrite)
                } else {
                    self.kv.insert(clone_bytes(key), clone_bytes(value));
                    Ok(OverwriteStatus::NotChecked)
                }
            },
        }
    }

    /// Remove `key`. Fails when the key is not held here.
    pub fn unlink(&mut self, key: &Vec<u8>) -> (r: Result<(), StoreError>)
        requires
            old(self).wf(),
        ensures
            final(self).wf(),
            final(self)@ == leaf_after_unlink(old(self)@, key@),
            unlink_res_view(r) == leaf_unlink_result(old(self)@, key@),
    {
        if self.read_only {
            return Err(StoreError::ReadOnlyRejected);
        }
        if self.chaos.write_fires(key) {
            return Err(StoreError::ChaosInjectedWrite);
        }
        if let PhysicalKind::Disabled = self.kind {
            return Err(StoreError::DisabledByConfig);
        }
        let was_present = self.kv.remove(key);
        proof {
            if !was_present {
                assert(old(self).kv@.remove(key@) =~= old(self).kv@);
            }
        }
        if was_present {
            Ok(())
        } else {
            Err(StoreError::UnlinkMissingKey)
        }
    }
}

} // verus!
