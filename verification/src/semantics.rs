//! The mathematical model of every operation: what a get, put, presence
//! check or unlink returns on a store, and the store it leaves behind.
//! The executable operations promise to agree with these functions
//! exactly; the proved system properties are statements about them.

use vstd::prelude::*;
use crate::leaf::leaf_after_put;
use crate::leaf::leaf_after_unlink;
use crate::leaf::leaf_get;
use crate::leaf::leaf_is_present;
use crate::leaf::leaf_put_result;
use crate::leaf::leaf_unlink_result;
use crate::multiplex::MuxView;
use crate::multiplex::StoreView;
use crate::multiplex::TimedStoreView;
use crate::types::ErrorKindView;
use crate::types::IsPresentView;
use crate::types::MultiplexErrorView;
use crate::types::OverwriteStatus;
use crate::types::PutBehaviour;
use crate::types::StoreErrorView;
use crate::wal::WalEntryView;
use crate::wal::WalView;
use crate::wal::wal_entries_without;

verus! {

pub open spec fn spec_min(a: int, b: int) -> int {
    if a <= b {
        a
    } else {
        b
    }
}

pub open spec fn spec_max(a: nat, b: nat) -> nat {
    if a <= b {
        b
    } else {
        a
    }
}

// ---------------------------------------------------------------------
// Nesting depth, the termination measure of the model.
// ---------------------------------------------------------------------

/// How deeply multiplexers nest below this store.
pub open spec fn sv_height(s: StoreView) -> nat
    decreases s,
{
    match s {
        StoreView::Leaf(_) => 0,
        StoreView::Multiplex(m) => 1 + spec_max(
            ch_height(m.blobstores),
            ch_height(m.write_only_blobstores),
        ),
    }
}

/// The largest height among a child list's stores.
pub open spec fn ch_height(cs: Seq<TimedStoreView>) -> nat
    decreases cs,
{
    if cs.len() == 0 {
        0
    } else {
        spec_max(ch_height(cs.drop_last()), sv_height(cs.last().store))
    }
}

/// The height of a multiplexer seen as a store.
pub open spec fn mv_height(m: MuxView) -> nat {
    1 + spec_max(ch_height(m.blobstores), ch_height(m.write_only_blobstores))
}

/// Every child's store stays under the list's height.
pub proof fn lemma_ch_height_bound(cs: Seq<TimedStoreView>)
    ensures
        forall|i: int| 0 <= i < cs.len() ==> sv_height(#[trigger] cs[i].store) <= ch_height(cs),
    decreases cs,
{
    if cs.len() > 0 {
        lemma_ch_height_bound(cs.drop_last());
        assert forall|i: int| 0 <= i < cs.len() implies sv_height(#[trigger] cs[i].store)
            <= ch_height(cs) by {
            if i < cs.len() - 1 {
                assert(cs.drop_last()[i] == cs[i]);
            }
        }
    }
}

// ---------------------------------------------------------------------
// get: first value wins, a negative quorum decides absence.
// ---------------------------------------------------------------------

/// What a get returns on one child: the timed envelope may cut it off,
/// otherwise the store answers.
pub open spec fn child_get(c: TimedStoreView, key: Seq<u8>) -> Result<
    Option<Seq<u8>>,
    StoreErrorView,
>
    decreases sv_height(c.store) + 1, 0int, 0int,
{
    if c.timeout_reads {
        Err(StoreErrorView::DeadlineExceeded)
    } else {
        store_get(c.store, key)
    }
}

/// What a get returns on a store.
pub open spec fn store_get(s: StoreView, key: Seq<u8>) -> Result<Option<Seq<u8>>, StoreErrorView>
    decreases sv_height(s), 4int, 0int,
{
    match s {
        StoreView::Leaf(l) => leaf_get(l, key),
        StoreView::Multiplex(m) => match mux_get(m, key) {
            Ok(Some((id, v))) => Ok(Some(v)),
            Ok(None) => Ok(None),
            Err(k) => Err(StoreErrorView::Inner(MultiplexErrorView::Op(k))),
        },
    }
}

/// How many children take part in reads: the per-backend read-disable
/// flag takes a backend out entirely.
pub open spec fn mux_used_count(cs: Seq<TimedStoreView>) -> int
    decreases ch_height(cs) + 1, 2int, cs.len(),
{
    if cs.len() == 0 {
        0
    } else {
        mux_used_count(cs.drop_last()) + if cs.last().reads_disabled {
            0int
        } else {
            1int
        }
    }
}

/// The get scan from child `i` on: the first value wins; `q` more
/// negative answers decide absence; errors accumulate in `errs`. At the
/// end, every consulted backend having failed is fatal, anything else is
/// an undecided read.
pub open spec fn get_scan(
    cs: Seq<TimedStoreView>,
    key: Seq<u8>,
    i: int,
    q: int,
    errs: Seq<(u64, StoreErrorView)>,
    used: int,
) -> Result<Option<(u64, Seq<u8>)>, ErrorKindView>
    decreases ch_height(cs) + 1, 2int, cs.len() - i,
    via get_scan_decreases
{
    if i < 0 || i >= cs.len() {
        if errs.len() == used {
            Err(ErrorKindView::AllFailed(errs))
        } else {
            Err(ErrorKindView::SomeGetsFailed(errs))
        }
    } else if cs[i].reads_disabled {
        get_scan(cs, key, i + 1, q, errs, used)
    } else {
        match child_get(cs[i], key) {
            Ok(Some(v)) => Ok(Some((cs[i].id, v))),
            Ok(None) => if q - 1 <= 0 {
                Ok(None)
            } else {
                get_scan(cs, key, i + 1, q - 1, errs, used)
            },
            Err(e) => get_scan(cs, key, i + 1, q, errs.push((cs[i].id, e)), used),
        }
    }
}

/// What a get returns on a multiplexer: the plain quorum read.
pub open spec fn mux_get(m: MuxView, key: Seq<u8>) -> Result<
    Option<(u64, Seq<u8>)>,
    ErrorKindView,
>
    decreases mv_height(m), 3int, 0int,
{
    let used = mux_used_count(m.blobstores);
    let q0 = spec_min(m.quorum.read as int, used);
    get_scan(m.blobstores, key, 0, q0, Seq::empty(), used)
}

/// What a caller sees from a multiplexer get: the value, with the
/// backend that served it forgotten.
pub open spec fn mux_get_data(m: MuxView, key: Seq<u8>) -> Result<Option<Seq<u8>>, ErrorKindView> {
    match mux_get(m, key) {
        Ok(Some((id, v))) => Ok(Some(v)),
        Ok(None) => Ok(None),
        Err(k) => Err(k),
    }
}

// ---------------------------------------------------------------------
// is_present: first Present wins, a negative quorum decides absence,
// anything less is advisory.
// ---------------------------------------------------------------------

pub open spec fn child_is_present(c: TimedStoreView, key: Seq<u8>) -> Result<
    IsPresentView,
    StoreErrorView,
>
    decreases sv_height(c.store) + 1, 0int, 0int,
{
    if c.timeout_reads {
        Err(StoreErrorView::DeadlineExceeded)
    } else {
        store_is_present(c.store, key)
    }
}

pub open spec fn store_is_present(s: StoreView, key: Seq<u8>) -> Result<
    IsPresentView,
    StoreErrorView,
>
    decreases sv_height(s), 4int, 0int,
{
    match s {
        StoreView::Leaf(l) => leaf_is_present(l, key),
        StoreView::Multiplex(m) => match mux_is_present(m, key) {
            Ok(p) => Ok(p),
            Err(k) => Err(StoreErrorView::Inner(MultiplexErrorView::Op(k))),
        },
    }
}

/// The presence scan from child `i` on. A child's own undecided answer
/// is treated like an error from that child.
pub open spec fn pres_scan(
    cs: Seq<TimedStoreView>,
    key: Seq<u8>,
    i: int,
    q: int,
    errs: Seq<(u64, StoreErrorView)>,
) -> Result<IsPresentView, ErrorKindView>
    decreases ch_height(cs) + 1, 2int, cs.len() - i,
    via pres_scan_decreases
{
    if i < 0 || i >= cs.len() {
        if errs.len() == cs.len() {
            Err(ErrorKindView::AllFailed(errs))
        } else {
            Ok(IsPresentView::ProbablyNotPresent(ErrorKindView::SomeIsPresentsFailed(errs)))
        }
    } else {
        match child_is_present(cs[i], key) {
            Ok(IsPresentView::Present) => Ok(IsPresentView::Present),
            Ok(IsPresentView::Absent) => if q - 1 <= 0 {
                Ok(IsPresentView::Absent)
            } else {
                pres_scan(cs, key, i + 1, q - 1, errs)
            },
            Ok(IsPresentView::ProbablyNotPresent(k)) => pres_scan(
                cs,
                key,
                i + 1,
                q,
                errs.push((cs[i].id, StoreErrorView::Inner(MultiplexErrorView::Op(k)))),
            ),
            Err(e) => pres_scan(cs, key, i + 1, q, errs.push((cs[i].id, e))),
        }
    }
}

pub open spec fn mux_is_present(m: MuxView, key: Seq<u8>) -> Result<IsPresentView, ErrorKindView>
    decreases mv_height(m), 3int, 0int,
{
    pres_scan(m.blobstores, key, 0, m.quorum.read as int, Seq::empty())
}

// ---------------------------------------------------------------------
// put: write everywhere, succeed at the write quorum, leave the
// write-ahead-log entry unless every replica acknowledged.
// ---------------------------------------------------------------------

pub open spec fn child_put_result(c: TimedStoreView, key: Seq<u8>, b: Option<PutBehaviour>) -> Result<
    OverwriteStatus,
    StoreErrorView,
>
    decreases sv_height(c.store) + 1, 0int, 0int,
{
    if c.timeout_writes {
        Err(StoreErrorView::DeadlineExceeded)
    } else {
        store_put_result(c.store, key, b)
    }
}

pub open spec fn child_after_put(
    c: TimedStoreView,
    key: Seq<u8>,
    value: Seq<u8>,
    b: Option<PutBehaviour>,
) -> TimedStoreView
    decreases sv_height(c.store) + 1, 0int, 0int,
{
    if c.timeout_writes {
        c
    } else {
        TimedStoreView { store: store_after_put(c.store, key, value, b), ..c }
    }
}

pub open spec fn store_put_result(s: StoreView, key: Seq<u8>, b: Option<PutBehaviour>) -> Result<
    OverwriteStatus,
    StoreErrorView,
>
    decreases sv_height(s), 4int, 0int,
{
    match s {
        StoreView::Leaf(l) => leaf_put_result(l, key, b),
        StoreView::Multiplex(m) => match mux_put_result(m, key, b) {
            Ok(st) => Ok(st),
            Err(e) => Err(StoreErrorView::Inner(e)),
        },
    }
}

pub open spec fn store_after_put(
    s: StoreView,
    key: Seq<u8>,
    value: Seq<u8>,
    b: Option<PutBehaviour>,
) -> StoreView
    decreases sv_height(s), 4int, 0int,
{
    match s {
        StoreView::Leaf(l) => StoreView::Leaf(leaf_after_put(l, key, value, b)),
        StoreView::Multiplex(m) => StoreView::Multiplex(mux_after_put(m, key, value, b)),
    }
}

/// How many children from `i` on acknowledge the put.
pub open spec fn put_ok_from(cs: Seq<TimedStoreView>, key: Seq<u8>, b: Option<PutBehaviour>, i: int) -> int
    decreases ch_height(cs) + 1, 2int, cs.len() - i,
    via put_ok_from_decreases
{
    if i < 0 || i >= cs.len() {
        0
    } else {
        (if child_put_result(cs[i], key, b) is Ok {
            1int
        } else {
            0int
        }) + put_ok_from(cs, key, b, i + 1)
    }
}

/// The failures among children from `i` on, in order.
pub open spec fn put_errs_from(
    cs: Seq<TimedStoreView>,
    key: Seq<u8>,
    b: Option<PutBehaviour>,
    i: int,
) -> Seq<(u64, StoreErrorView)>
    decreases ch_height(cs) + 1, 2int, cs.len() - i,
    via put_errs_from_decreases
{
    if i < 0 || i >= cs.len() {
        Seq::empty()
    } else {
        match child_put_result(cs[i], key, b) {
            Ok(_) => put_errs_from(cs, key, b, i + 1),
            Err(e) => seq![(cs[i].id, e)] + put_errs_from(cs, key, b, i + 1),
        }
    }
}

/// The child list after every child attempted the put.
pub open spec fn children_after_put(
    cs: Seq<TimedStoreView>,
    key: Seq<u8>,
    value: Seq<u8>,
    b: Option<PutBehaviour>,
) -> Seq<TimedStoreView>
    decreases ch_height(cs) + 1, 2int, cs.len(),
{
    if cs.len() == 0 {
        Seq::empty()
    } else {
        children_after_put(cs.drop_last(), key, value, b).push(
            child_after_put(cs.last(), key, value, b),
        )
    }
}

pub proof fn lemma_children_after_put_index(
    cs: Seq<TimedStoreView>,
    key: Seq<u8>,
    value: Seq<u8>,
    b: Option<PutBehaviour>,
)
    ensures
        children_after_put(cs, key, value, b).len() == cs.len(),
        forall|i: int|
            0 <= i < cs.len() ==> #[trigger] children_after_put(cs, key, value, b)[i]
                == child_after_put(cs[i], key, value, b),
    decreases cs,
{
    if cs.len() > 0 {
        lemma_children_after_put_index(cs.drop_last(), key, value, b);
        assert forall|i: int| 0 <= i < cs.len() implies #[trigger] children_after_put(
            cs,
            key,
            value,
            b,
        )[i] == child_after_put(cs[i], key, value, b) by {
            if i < cs.len() - 1 {
                assert(cs.drop_last()[i] == cs[i]);
            }
        }
    }
}

/// The timestamp the put would record for its intent entry.
pub open spec fn put_wal_entry(m: MuxView, key: Seq<u8>, value: Seq<u8>) -> WalEntryView {
    WalEntryView {
        key,
        multiplex_id: m.multiplex_id,
        timestamp: m.clock,
        blob_size: value.len() as u64,
    }
}

/// The clock after an operation consumed a timestamp; it saturates at
/// the largest timestamp rather than wrap.
pub open spec fn spec_tick(clock: i64) -> i64 {
    if clock == i64::MAX {
        clock
    } else {
        (clock + 1) as i64
    }
}

/// What a put returns on a multiplexer: fails outright when the
/// write-ahead log refuses the intent; succeeds as soon as the write
/// quorum of normal backends acknowledges; otherwise reports whether
/// every backend failed or only some.
pub open spec fn mux_put_result(m: MuxView, key: Seq<u8>, b: Option<PutBehaviour>) -> Result<
    OverwriteStatus,
    MultiplexErrorView,
>
    decreases mv_height(m), 3int, 0int,
{
    if m.wal_queue.fail_appends {
        Err(MultiplexErrorView::WalAppendFailed)
    } else {
        let succ = put_ok_from(m.blobstores, key, b, 0);
        if succ >= m.quorum.write {
            Ok(OverwriteStatus::NotChecked)
        } else {
            let errs = put_errs_from(m.blobstores, key, b, 0);
            if errs.len() == m.blobstores.len() {
                Err(MultiplexErrorView::Op(ErrorKindView::AllFailed(errs)))
            } else {
                Err(MultiplexErrorView::Op(ErrorKindView::SomePutsFailed(errs)))
            }
        }
    }
}

/// The multiplexer after a put: the clock ticked; on a refused intent
/// nothing else changed; otherwise every normal backend attempted the
/// write, write-only backends joined once quorum was reached, and the
/// intent entry was deleted exactly when every backend acknowledged.
pub open spec fn mux_after_put(
    m: MuxView,
    key: Seq<u8>,
    value: Seq<u8>,
    b: Option<PutBehaviour>,
) -> MuxView
    decreases mv_height(m), 3int, 0int,
{
    let clock2 = spec_tick(m.clock);
    let entry = put_wal_entry(m, key, value);
    if m.wal_queue.fail_appends {
        MuxView { clock: clock2, ..m }
    } else {
        let normal2 = children_after_put(m.blobstores, key, value, b);
        let succ = put_ok_from(m.blobstores, key, b, 0);
        if succ >= m.quorum.write {
            let wo2 = children_after_put(m.write_only_blobstores, key, value, b);
            let clean = put_errs_from(m.blobstores, key, b, 0).len() == 0 && put_errs_from(
                m.write_only_blobstores,
                key,
                b,
                0,
            ).len() == 0;
            let entries2 = if clean {
                wal_entries_without(m.wal_queue.entries.push(entry), entry)
            } else {
                m.wal_queue.entries.push(entry)
            };
            MuxView {
                clock: clock2,
                wal_queue: WalView { entries: entries2, ..m.wal_queue },
                blobstores: normal2,
                write_only_blobstores: wo2,
                ..m
            }
        } else {
            MuxView {
                clock: clock2,
                wal_queue: WalView {
                    entries: m.wal_queue.entries.push(entry),
                    ..m.wal_queue
                },
                blobstores: normal2,
                ..m
            }
        }
    }
}

// ---------------------------------------------------------------------
// unlink: remove everywhere; a failed removal is forgiven when the key
// is observably absent afterwards.
// ---------------------------------------------------------------------

pub open spec fn child_unlink_raw(c: TimedStoreView, key: Seq<u8>) -> Result<(), StoreErrorView>
    decreases sv_height(c.store) + 1, 0int, 0int,
{
    if c.timeout_writes {
        Err(StoreErrorView::DeadlineExceeded)
    } else {
        store_unlink_result(c.store, key)
    }
}

pub open spec fn child_after_unlink(c: TimedStoreView, key: Seq<u8>) -> TimedStoreView
    decreases sv_height(c.store) + 1, 0int, 0int,
{
    if c.timeout_writes {
        c
    } else {
        TimedStoreView { store: store_after_unlink(c.store, key), ..c }
    }
}

pub open spec fn store_unlink_result(s: StoreView, key: Seq<u8>) -> Result<(), StoreErrorView>
    decreases sv_height(s), 4int, 0int,
{
    match s {
        StoreView::Leaf(l) => leaf_unlink_result(l, key),
        StoreView::Multiplex(m) => match mux_unlink_result(m, key) {
            Ok(()) => Ok(()),
            Err(k) => Err(StoreErrorView::Inner(MultiplexErrorView::Op(k))),
        },
    }
}

pub open spec fn store_after_unlink(s: StoreView, key: Seq<u8>) -> StoreView
    decreases sv_height(s), 4int, 0int,
{
    match s {
        StoreView::Leaf(l) => StoreView::Leaf(leaf_after_unlink(l, key)),
        StoreView::Multiplex(m) => StoreView::Multiplex(mux_after_unlink(m, key)),
    }
}

/// Whether a failed unlink on this child is rescued: the key is
/// observably absent from the child as the attempt left it.
pub open spec fn child_unlink_rescued(c: TimedStoreView, key: Seq<u8>) -> Result<
    (),
    StoreErrorView,
>
    decreases sv_height(c.store) + 1, 1int, 0int,
{
    match child_unlink_raw(c, key) {
        Ok(()) => Ok(()),
        Err(e) => {
            let c2 = child_after_unlink(c, key);
            if child_is_present(c2, key) == Ok::<IsPresentView, StoreErrorView>(
                IsPresentView::Absent,
            ) {
                Ok(())
            } else {
                Err(e)
            }
        },
    }
}

/// The child list after every child attempted the unlink.
pub open spec fn children_after_unlink(cs: Seq<TimedStoreView>, key: Seq<u8>) -> Seq<
    TimedStoreView,
>
    decreases ch_height(cs) + 1, 2int, cs.len(),
{
    if cs.len() == 0 {
        Seq::empty()
    } else {
        children_after_unlink(cs.drop_last(), key).push(child_after_unlink(cs.last(), key))
    }
}

pub proof fn lemma_children_after_unlink_index(cs: Seq<TimedStoreView>, key: Seq<u8>)
    ensures
        children_after_unlink(cs, key).len() == cs.len(),
        forall|i: int|
            0 <= i < cs.len() ==> #[trigger] children_after_unlink(cs, key)[i]
                == child_after_unlink(cs[i], key),
    decreases cs,
{
    if cs.len() > 0 {
        lemma_children_after_unlink_index(cs.drop_last(), key);
        assert forall|i: int| 0 <= i < cs.len() implies #[trigger] children_after_unlink(cs, key)[i]
            == child_after_unlink(cs[i], key) by {
            if i < cs.len() - 1 {
                assert(cs.drop_last()[i] == cs[i]);
            }
        }
    }
}

/// The unrescued failures among children from `i` on, in order.
pub open spec fn unlink_errs_from(cs: Seq<TimedStoreView>, key: Seq<u8>, i: int) -> Seq<
    (u64, StoreErrorView),
>
    decreases ch_height(cs) + 1, 2int, cs.len() - i,
    via unlink_errs_from_decreases
{
    if i < 0 || i >= cs.len() {
        Seq::empty()
    } else {
        match child_unlink_rescued(cs[i], key) {
            Ok(()) => unlink_errs_from(cs, key, i + 1),
            Err(e) => seq![(cs[i].id, e)] + unlink_errs_from(cs, key, i + 1),
        }
    }
}

/// What an unlink returns on a multiplexer: success exactly when every
/// normal backend finished with the key absent.
pub open spec fn mux_unlink_result(m: MuxView, key: Seq<u8>) -> Result<(), ErrorKindView>
    decreases mv_height(m), 3int, 0int,
{
    let errs = unlink_errs_from(m.blobstores, key, 0);
    if errs.len() == 0 {
        Ok(())
    } else if errs.len() == m.blobstores.len() {
        Err(ErrorKindView::AllFailed(errs))
    } else {
        Err(ErrorKindView::SomeUnlinksFailed(errs))
    }
}

/// The multiplexer after an unlink: every normal backend attempted it;
/// write-only backends and the write-ahead log are untouched.
pub open spec fn mux_after_unlink(m: MuxView, key: Seq<u8>) -> MuxView
    decreases mv_height(m), 3int, 0int,
{
    MuxView { blobstores: children_after_unlink(m.blobstores, key), ..m }
}

#[via_fn]
proof fn get_scan_decreases(
    cs: Seq<TimedStoreView>,
    key: Seq<u8>,
    i: int,
    q: int,
    errs: Seq<(u64, StoreErrorView)>,
    used: int,
) {
    lemma_ch_height_bound(cs);
}

#[via_fn]
proof fn pres_scan_decreases(
    cs: Seq<TimedStoreView>,
    key: Seq<u8>,
    i: int,
    q: int,
    errs: Seq<(u64, StoreErrorView)>,
) {
    lemma_ch_height_bound(cs);
}

#[via_fn]
proof fn put_ok_from_decreases(
    cs: Seq<TimedStoreView>,
    key: Seq<u8>,
    b: Option<PutBehaviour>,
    i: int,
) {
    lemma_ch_height_bound(cs);
}

#[via_fn]
proof fn put_errs_from_decreases(
    cs: Seq<TimedStoreView>,
    key: Seq<u8>,
    b: Option<PutBehaviour>,
    i: int,
) {
    lemma_ch_height_bound(cs);
}

#[via_fn]
proof fn unlink_errs_from_decreases(cs: Seq<TimedStoreView>, key: Seq<u8>, i: int) {
    lemma_ch_height_bound(cs);
}

} // verus!
