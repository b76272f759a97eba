//! Proved system-level properties of the multiplexer and the factory:
//! quorum correctness of puts and gets, the negative-quorum absence
//! decision, unlink totality, the write-ahead-log discipline, the chaos
//! anti-repeat rule and the wrapper-application rule.

use vstd::prelude::*;
use crate::factory::BlobConfigView;
use crate::factory::ConfigError;
use crate::factory::MultiplexedStoreType;
use crate::factory::spec_build_children;
use crate::factory::spec_build_store;
use crate::factory::spec_child_opts;
use crate::factory::spec_component_ro;
use crate::multiplex::MuxView;
use crate::multiplex::StoreView;
use crate::multiplex::TimedStoreView;
use crate::options::BlobstoreOptions;
use crate::semantics::child_after_put;
use crate::semantics::child_after_unlink;
use crate::semantics::child_get;
use crate::semantics::child_put_result;
use crate::semantics::child_unlink_rescued;
use crate::semantics::children_after_put;
use crate::semantics::get_scan;
use crate::semantics::lemma_children_after_put_index;
use crate::semantics::lemma_children_after_unlink_index;
use crate::semantics::mux_after_put;
use crate::semantics::mux_after_unlink;
use crate::semantics::mux_get;
use crate::semantics::mux_put_result;
use crate::semantics::mux_unlink_result;
use crate::semantics::mux_used_count;
use crate::semantics::put_errs_from;
use crate::semantics::put_ok_from;
use crate::semantics::put_wal_entry;
use crate::semantics::spec_min;
use crate::semantics::spec_tick;
use crate::semantics::unlink_errs_from;
use crate::types::ErrorKindView;
use crate::types::MultiplexErrorView;
use crate::types::OverwriteStatus;
use crate::types::PutBehaviour;
use crate::types::StoreErrorView;
use crate::wal::lemma_wal_entries_without_absent;
use crate::wal::wal_entries_without;

verus! {

/// Whether this backend is a single backend whose blob state maps `key`
/// to `value`.
pub open spec fn child_holds(c: TimedStoreView, key: Seq<u8>, value: Seq<u8>) -> bool {
    &&& c.store matches StoreView::Leaf(l)
    &&& l.kv.contains_key(key)
    &&& l.kv[key] == value
}

/// How many backends from `i` on hold `key` with `value`.
pub open spec fn holding_count(cs: Seq<TimedStoreView>, key: Seq<u8>, value: Seq<u8>, i: int) -> int
    decreases cs.len() - i,
{
    if i < 0 || i >= cs.len() {
        0
    } else {
        (if child_holds(cs[i], key, value) {
            1int
        } else {
            0int
        }) + holding_count(cs, key, value, i + 1)
    }
}

/// Whether a put on this backend both succeeds and stores the value:
/// single backend, no write cut-off, and an overwriting behaviour.
pub open spec fn leaf_put_stores(c: TimedStoreView, key: Seq<u8>, b: Option<PutBehaviour>) -> bool {
    &&& c.store is Leaf
    &&& child_put_result(c, key, b) is Ok
    &&& !(crate::leaf::spec_effective_behaviour(c.store->Leaf_0, b) is IfAbsent)
}

proof fn lemma_leaf_put_stores(c: TimedStoreView, key: Seq<u8>, value: Seq<u8>, b: Option<PutBehaviour>)
    requires
        leaf_put_stores(c, key, b),
    ensures
        child_holds(child_after_put(c, key, value, b), key, value),
{
}

/// Quorum correctness of put, counted: an acknowledged put by a single
/// backend with an overwriting behaviour leaves the value there, so the
/// successes bound the holders afterwards.
proof fn lemma_put_ok_holding(
    cs: Seq<TimedStoreView>,
    key: Seq<u8>,
    value: Seq<u8>,
    b: Option<PutBehaviour>,
    i: int,
)
    requires
        0 <= i <= cs.len(),
        forall|j: int| 0 <= j < cs.len() ==> (#[trigger] cs[j].store) is Leaf,
        !(b is Some && b->0 is IfAbsent),
        forall|j: int|
            0 <= j < cs.len() ==> !((#[trigger] cs[j].store)->Leaf_0.put_behaviour is IfAbsent),
    ensures
        holding_count(children_after_put(cs, key, value, b), key, value, i) >= put_ok_from(
            cs,
            key,
            b,
            i,
        ),
    decreases cs.len() - i,
{
    lemma_children_after_put_index(cs, key, value, b);
    if i < cs.len() {
        lemma_put_ok_holding(cs, key, value, b, i + 1);
        if child_put_result(cs[i], key, b) is Ok {
            assert(leaf_put_stores(cs[i], key, b));
            lemma_leaf_put_stores(cs[i], key, value, b);
            assert(children_after_put(cs, key, value, b)[i] == child_after_put(
                cs[i],
                key,
                value,
                b,
            ));
        }
    }
}

/// Quorum correctness of put: if a put of `(key, value)` with an
/// overwriting behaviour succeeds on a multiplex of single backends,
/// then after every backend settles, at least `write` quorum of the
/// normal backends hold the new value.
pub proof fn law_put_quorum(m: MuxView, key: Seq<u8>, value: Seq<u8>, b: Option<PutBehaviour>)
    requires
        forall|j: int| 0 <= j < m.blobstores.len() ==> (#[trigger] m.blobstores[j].store) is Leaf,
        !(b is Some && b->0 is IfAbsent),
        forall|j: int|
            0 <= j < m.blobstores.len() ==> !((#[trigger] m.blobstores[j].store)->Leaf_0.put_behaviour
                is IfAbsent),
        mux_put_result(m, key, b) is Ok,
    ensures
        holding_count(mux_after_put(m, key, value, b).blobstores, key, value, 0) >= m.quorum.write,
{
    lemma_put_ok_holding(m.blobstores, key, value, b, 0);
}

/// How many backends from `i` on would answer "absent".
pub open spec fn absent_rest(cs: Seq<TimedStoreView>, key: Seq<u8>, i: int) -> int
    decreases cs.len() - i,
{
    if i < 0 || i >= cs.len() {
        0
    } else {
        (if child_get(cs[i], key) == Ok::<Option<Seq<u8>>, StoreErrorView>(None) {
            1int
        } else {
            0int
        }) + absent_rest(cs, key, i + 1)
    }
}

/// How many backends from `i` on would answer this value.
pub open spec fn answering_count(cs: Seq<TimedStoreView>, key: Seq<u8>, v: Seq<u8>, i: int) -> int
    decreases cs.len() - i,
{
    if i < 0 || i >= cs.len() {
        0
    } else {
        (if child_get(cs[i], key) == Ok::<Option<Seq<u8>>, StoreErrorView>(Some(v)) {
            1int
        } else {
            0int
        }) + answering_count(cs, key, v, i + 1)
    }
}

/// The scan returns the committed value: while a backend answering the
/// value remains ahead and fewer negative answers remain than the
/// counter, the scan ends at a value answer.
proof fn lemma_get_scan_finds(
    cs: Seq<TimedStoreView>,
    key: Seq<u8>,
    v: Seq<u8>,
    i: int,
    q: int,
    errs: Seq<(u64, StoreErrorView)>,
    used: int,
)
    requires
        0 <= i <= cs.len(),
        forall|j: int| 0 <= j < cs.len() ==> !(#[trigger] cs[j]).reads_disabled,
        forall|j: int|
            0 <= j < cs.len() ==> (match child_get(#[trigger] cs[j], key) {
                Ok(Some(w)) => w == v,
                _ => true,
            }),
        answering_count(cs, key, v, i) >= 1,
        absent_rest(cs, key, i) < q,
    ensures
        get_scan(cs, key, i, q, errs, used) matches Ok(Some(p)) && p.1 == v,
    decreases cs.len() - i,
{
    if i >= cs.len() {
        assert(answering_count(cs, key, v, i) == 0);
    } else {
        match child_get(cs[i], key) {
            Ok(Some(w)) => {
                assert(w == v);
            },
            Ok(None) => {
                assert(answering_count(cs, key, v, i + 1) >= 1);
                lemma_absent_rest_nonneg(cs, key, i + 1);
                assert(q - 1 > 0);
                lemma_get_scan_finds(cs, key, v, i + 1, q - 1, errs, used);
            },
            Err(e) => {
                lemma_get_scan_finds(cs, key, v, i + 1, q, errs.push((cs[i].id, e)), used);
            },
        }
    }
}

/// Absent answers never count negatively.
proof fn lemma_absent_rest_nonneg(cs: Seq<TimedStoreView>, key: Seq<u8>, i: int)
    ensures
        absent_rest(cs, key, i) >= 0,
    decreases cs.len() - i,
{
    if 0 <= i < cs.len() {
        lemma_absent_rest_nonneg(cs, key, i + 1);
    }
}

/// Backends answering the value do not answer "absent", so the absent
/// answers fit in what is left.
proof fn lemma_absent_vs_answering(cs: Seq<TimedStoreView>, key: Seq<u8>, v: Seq<u8>, i: int)
    requires
        0 <= i <= cs.len(),
    ensures
        absent_rest(cs, key, i) + answering_count(cs, key, v, i) <= cs.len() - i,
        absent_rest(cs, key, i) >= 0,
        answering_count(cs, key, v, i) >= 0,
    decreases cs.len() - i,
{
    if i < cs.len() {
        lemma_absent_vs_answering(cs, key, v, i + 1);
    }
}

/// Quorum correctness of get: when a committed put has left at least a
/// write quorum of normal backends answering `(key, value)` and no
/// backend answers a different value, a get returns that value.
pub proof fn law_get_committed(m: MuxView, key: Seq<u8>, v: Seq<u8>)
    requires
        m.quorum.wf(m.blobstores.len() as nat),
        forall|j: int| 0 <= j < m.blobstores.len() ==> !(#[trigger] m.blobstores[j]).reads_disabled,
        forall|j: int|
            0 <= j < m.blobstores.len() ==> (match child_get(#[trigger] m.blobstores[j], key) {
                Ok(Some(w)) => w == v,
                _ => true,
            }),
        answering_count(m.blobstores, key, v, 0) >= m.quorum.write,
    ensures
        mux_get(m, key) matches Ok(Some(p)) && p.1 == v,
{
    let cs = m.blobstores;
    lemma_used_all(cs, 0);
    lemma_absent_vs_answering(cs, key, v, 0);
    assert(absent_rest(cs, key, 0) <= cs.len() - m.quorum.write);
    assert(cs.len() - m.quorum.write < m.quorum.read);
    lemma_get_scan_finds(
        cs,
        key,
        v,
        0,
        spec_min(m.quorum.read as int, mux_used_count(cs)),
        Seq::empty(),
        mux_used_count(cs),
    );
}

/// With no backend disabled for reads, every backend takes part.
proof fn lemma_used_all(cs: Seq<TimedStoreView>, i: int)
    requires
        forall|j: int| 0 <= j < cs.len() ==> !(#[trigger] cs[j]).reads_disabled,
    ensures
        mux_used_count(cs) == cs.len(),
    decreases cs,
{
    if cs.len() > 0 {
        assert(forall|j: int|
            0 <= j < cs.drop_last().len() ==> !(#[trigger] cs.drop_last()[j]).reads_disabled);
        lemma_used_all(cs.drop_last(), i);
    }
}

/// The scan declares absence once enough backends say so: when every
/// backend from `i` on answers "absent" and at most that many negative
/// answers are still needed, the scan ends in `None`.
proof fn lemma_get_scan_absent(
    cs: Seq<TimedStoreView>,
    key: Seq<u8>,
    i: int,
    q: int,
    errs: Seq<(u64, StoreErrorView)>,
    used: int,
)
    requires
        0 <= i <= cs.len(),
        forall|j: int| 0 <= j < cs.len() ==> !(#[trigger] cs[j]).reads_disabled,
        forall|j: int|
            i <= j < cs.len() ==> child_get(#[trigger] cs[j], key) == Ok::<
                Option<Seq<u8>>,
                StoreErrorView,
            >(None),
        1 <= q <= cs.len() - i,
    ensures
        get_scan(cs, key, i, q, errs, used) == Ok::<Option<(u64, Seq<u8>)>, ErrorKindView>(None),
    decreases cs.len() - i,
{
    if q - 1 <= 0 {
    } else {
        lemma_get_scan_absent(cs, key, i + 1, q - 1, errs, used);
    }
}

/// Negative quorum, first half: if every normal backend answers
/// "absent", a get returns `None`.
pub proof fn law_get_all_absent(m: MuxView, key: Seq<u8>)
    requires
        m.quorum.wf(m.blobstores.len() as nat),
        forall|j: int| 0 <= j < m.blobstores.len() ==> !(#[trigger] m.blobstores[j]).reads_disabled,
        forall|j: int|
            0 <= j < m.blobstores.len() ==> child_get(#[trigger] m.blobstores[j], key) == Ok::<
                Option<Seq<u8>>,
                StoreErrorView,
            >(None),
    ensures
        mux_get(m, key) == Ok::<Option<(u64, Seq<u8>)>, ErrorKindView>(None),
{
    let cs = m.blobstores;
    lemma_used_all(cs, 0);
    lemma_get_scan_absent(cs, key, 0, spec_min(m.quorum.read as int, cs.len() as int), Seq::empty(), cs.len() as int);
}

/// The failures a scan would record from `i` on, when nothing decides.
pub open spec fn get_errs_rest(cs: Seq<TimedStoreView>, key: Seq<u8>, i: int) -> Seq<
    (u64, StoreErrorView),
>
    decreases cs.len() - i,
{
    if i < 0 || i >= cs.len() {
        Seq::empty()
    } else {
        match child_get(cs[i], key) {
            Err(e) => seq![(cs[i].id, e)] + get_errs_rest(cs, key, i + 1),
            Ok(_) => get_errs_rest(cs, key, i + 1),
        }
    }
}

/// The undecided scan: no value is answered and the negative answers
/// stay below the counter, so the scan runs to the end and reports the
/// failures.
proof fn lemma_get_scan_undecided(
    cs: Seq<TimedStoreView>,
    key: Seq<u8>,
    i: int,
    q: int,
    errs: Seq<(u64, StoreErrorView)>,
    used: int,
)
    requires
        0 <= i <= cs.len(),
        forall|j: int| 0 <= j < cs.len() ==> !(#[trigger] cs[j]).reads_disabled,
        forall|j: int|
            i <= j < cs.len() ==> !(child_get(#[trigger] cs[j], key) matches Ok(Some(_))),
        absent_rest(cs, key, i) < q,
    ensures
        get_scan(cs, key, i, q, errs, used) == (if errs.len() + get_errs_rest(cs, key, i).len()
            == used {
            Err::<Option<(u64, Seq<u8>)>, ErrorKindView>(
                ErrorKindView::AllFailed(errs + get_errs_rest(cs, key, i)),
            )
        } else {
            Err(ErrorKindView::SomeGetsFailed(errs + get_errs_rest(cs, key, i)))
        }),
    decreases cs.len() - i,
{
    if i >= cs.len() {
        assert(errs + get_errs_rest(cs, key, i) =~= errs);
    } else {
        match child_get(cs[i], key) {
            Ok(Some(_)) => {
                assert(false);
            },
            Ok(None) => {
                lemma_absent_rest_nonneg(cs, key, i + 1);
                assert(q - 1 > 0);
                lemma_get_scan_undecided(cs, key, i + 1, q - 1, errs, used);
            },
            Err(e) => {
                lemma_get_scan_undecided(cs, key, i + 1, q, errs.push((cs[i].id, e)), used);
                assert(errs.push((cs[i].id, e)) + get_errs_rest(cs, key, i + 1) =~= errs
                    + get_errs_rest(cs, key, i));
            },
        }
    }
}

/// Negative quorum, second half: when no backend answers a value and
/// fewer than the read quorum answer "absent", the get does not decide
/// absence: it fails, naming exactly the backends that failed, fatally
/// only when every backend failed.
pub proof fn law_get_undecided(m: MuxView, key: Seq<u8>)
    requires
        m.quorum.wf(m.blobstores.len() as nat),
        forall|j: int| 0 <= j < m.blobstores.len() ==> !(#[trigger] m.blobstores[j]).reads_disabled,
        forall|j: int|
            0 <= j < m.blobstores.len() ==> !(child_get(#[trigger] m.blobstores[j], key) matches Ok(
            Some(_))),
        absent_rest(m.blobstores, key, 0) < spec_min(
            m.quorum.read as int,
            m.blobstores.len() as int,
        ),
    ensures
        mux_get(m, key) == (if get_errs_rest(m.blobstores, key, 0).len() == m.blobstores.len() {
            Err::<Option<(u64, Seq<u8>)>, ErrorKindView>(
                ErrorKindView::AllFailed(get_errs_rest(m.blobstores, key, 0)),
            )
        } else {
            Err(ErrorKindView::SomeGetsFailed(get_errs_rest(m.blobstores, key, 0)))
        }),
{
    let cs = m.blobstores;
    lemma_used_all(cs, 0);
    lemma_get_scan_undecided(
        cs,
        key,
        0,
        spec_min(m.quorum.read as int, cs.len() as int),
        Seq::empty(),
        cs.len() as int,
    );
    assert(Seq::<(u64, StoreErrorView)>::empty() + get_errs_rest(cs, key, 0) =~= get_errs_rest(
        cs,
        key,
        0,
    ));
}

/// A successful unlink leaves the key absent on one single backend.
proof fn lemma_unlink_child_absent(c: TimedStoreView, key: Seq<u8>)
    requires
        c.store is Leaf,
        child_unlink_rescued(c, key) is Ok,
    ensures
        child_after_unlink(c, key).store matches StoreView::Leaf(l) && !l.kv.contains_key(key),
{
}

/// No recorded failures means every backend's unlink was accepted or
/// rescued.
proof fn lemma_unlink_errs_empty(cs: Seq<TimedStoreView>, key: Seq<u8>, i: int)
    requires
        0 <= i <= cs.len(),
        unlink_errs_from(cs, key, i).len() == 0,
    ensures
        forall|j: int| i <= j < cs.len() ==> child_unlink_rescued(#[trigger] cs[j], key) is Ok,
    decreases cs.len() - i,
{
    if i < cs.len() {
        match child_unlink_rescued(cs[i], key) {
            Ok(()) => {
                lemma_unlink_errs_empty(cs, key, i + 1);
            },
            Err(_) => {
                assert(unlink_errs_from(cs, key, i).len() >= 1);
            },
        }
    }
}

/// Unlink totality: after a successful unlink on a multiplex of single
/// backends, no normal backend holds the key — even one that never held
/// it, because a put commits at quorum, not unanimity.
pub proof fn law_unlink_totality(m: MuxView, key: Seq<u8>)
    requires
        forall|j: int| 0 <= j < m.blobstores.len() ==> (#[trigger] m.blobstores[j].store) is Leaf,
        mux_unlink_result(m, key) is Ok,
    ensures
        forall|j: int|
            0 <= j < m.blobstores.len() ==> ({
                &&& (#[trigger] mux_after_unlink(m, key).blobstores[j]).store matches StoreView::Leaf(
                    l,
                )
                &&& !l.kv.contains_key(key)
            }),
{
    let cs = m.blobstores;
    lemma_unlink_errs_empty(cs, key, 0);
    lemma_children_after_unlink_index(cs, key);
    assert forall|j: int| 0 <= j < cs.len() implies ({
        &&& (#[trigger] mux_after_unlink(m, key).blobstores[j]).store matches StoreView::Leaf(l)
        &&& !l.kv.contains_key(key)
    }) by {
        lemma_unlink_child_absent(cs[j], key);
    }
}

/// Write-before-replicate: when the write-ahead log refuses the intent,
/// the put fails and no backend observes anything — only the clock
/// ticked.
pub proof fn law_wal_write_before_replicate(m: MuxView, key: Seq<u8>, value: Seq<u8>, b: Option<PutBehaviour>)
    requires
        m.wal_queue.fail_appends,
    ensures
        mux_put_result(m, key, b) == Err::<OverwriteStatus, MultiplexErrorView>(
            MultiplexErrorView::WalAppendFailed,
        ),
        mux_after_put(m, key, value, b) == (MuxView { clock: spec_tick(m.clock), ..m }),
{
}

/// Write-ahead-log cleanup: with a fresh clock, the intent entry is
/// deleted exactly when every replica — normal and write-only —
/// acknowledged with no intermediate error; otherwise it remains for the
/// healer.
pub proof fn law_wal_cleanup(m: MuxView, key: Seq<u8>, value: Seq<u8>, b: Option<PutBehaviour>)
    requires
        !m.wal_queue.fail_appends,
        forall|i: int|
            0 <= i < m.wal_queue.entries.len() ==> (#[trigger] m.wal_queue.entries[i]).timestamp
                < m.clock,
        mux_put_result(m, key, b) is Ok,
    ensures
        mux_after_put(m, key, value, b).wal_queue.entries == (if put_errs_from(
            m.blobstores,
            key,
            b,
            0,
        ).len() == 0 && put_errs_from(m.write_only_blobstores, key, b, 0).len() == 0 {
            m.wal_queue.entries
        } else {
            m.wal_queue.entries.push(put_wal_entry(m, key, value))
        }),
{
    let entry = put_wal_entry(m, key, value);
    let clean = put_errs_from(m.blobstores, key, b, 0).len() == 0 && put_errs_from(
        m.write_only_blobstores,
        key,
        b,
        0,
    ).len() == 0;
    if clean {
        let pushed = m.wal_queue.entries.push(entry);
        assert(wal_entries_without(pushed, entry) == m.wal_queue.entries) by {
            assert(pushed.drop_last() =~= m.wal_queue.entries);
            assert(pushed.last() == entry);
            lemma_wal_entries_without_absent(m.wal_queue.entries, entry);
        }
    }
}

/// A readable single backend answers a fresh key's put outcome: the
/// value when its put was acknowledged, absence when it was not.
proof fn lemma_child_get_after_put(c: TimedStoreView, key: Seq<u8>, value: Seq<u8>)
    requires
        c.store matches StoreView::Leaf(l),
        !c.timeout_reads,
        !c.store->Leaf_0.chaos.spec_read_fires(key),
        !(c.store->Leaf_0.kind is Disabled),
        !c.store->Leaf_0.kv.contains_key(key),
    ensures
        child_put_result(c, key, Some(PutBehaviour::Overwrite)) is Ok ==> child_get(
            child_after_put(c, key, value, Some(PutBehaviour::Overwrite)),
            key,
        ) == Ok::<Option<Seq<u8>>, StoreErrorView>(Some(value)),
        child_put_result(c, key, Some(PutBehaviour::Overwrite)) is Err ==> child_get(
            child_after_put(c, key, value, Some(PutBehaviour::Overwrite)),
            key,
        ) == Ok::<Option<Seq<u8>>, StoreErrorView>(None),
{
}

/// Counting the backends that answer the fresh value after the put:
/// every acknowledged backend answers it.
proof fn lemma_answering_after_put(cs: Seq<TimedStoreView>, key: Seq<u8>, value: Seq<u8>, i: int)
    requires
        0 <= i <= cs.len(),
        forall|j: int| 0 <= j < cs.len() ==> (#[trigger] cs[j].store) is Leaf,
        forall|j: int| 0 <= j < cs.len() ==> !(#[trigger] cs[j]).timeout_reads,
        forall|j: int|
            0 <= j < cs.len() ==> !(#[trigger] cs[j].store)->Leaf_0.chaos.spec_read_fires(key),
        forall|j: int| 0 <= j < cs.len() ==> !((#[trigger] cs[j].store)->Leaf_0.kind is Disabled),
        forall|j: int|
            0 <= j < cs.len() ==> !(#[trigger] cs[j].store)->Leaf_0.kv.contains_key(key),
    ensures
        answering_count(
            children_after_put(cs, key, value, Some(PutBehaviour::Overwrite)),
            key,
            value,
            i,
        ) >= put_ok_from(cs, key, Some(PutBehaviour::Overwrite), i),
    decreases cs.len() - i,
{
    lemma_children_after_put_index(cs, key, value, Some(PutBehaviour::Overwrite));
    if i < cs.len() {
        lemma_answering_after_put(cs, key, value, i + 1);
        lemma_child_get_after_put(cs[i], key, value);
    }
}

/// The full round trip: a put of a fresh key with the plain overwriting
/// behaviour that reaches its quorum leaves the multiplex answering
/// that value — the committed write is visible to any read.
pub proof fn law_put_get_round_trip(m: MuxView, key: Seq<u8>, value: Seq<u8>)
    requires
        m.quorum.wf(m.blobstores.len() as nat),
        forall|j: int| 0 <= j < m.blobstores.len() ==> (#[trigger] m.blobstores[j].store) is Leaf,
        forall|j: int| 0 <= j < m.blobstores.len() ==> !(#[trigger] m.blobstores[j]).reads_disabled,
        forall|j: int| 0 <= j < m.blobstores.len() ==> !(#[trigger] m.blobstores[j]).timeout_reads,
        forall|j: int|
            0 <= j < m.blobstores.len() ==> !(#[trigger] m.blobstores[j].store)->Leaf_0.chaos.spec_read_fires(
                key,
            ),
        forall|j: int|
            0 <= j < m.blobstores.len() ==> !((#[trigger] m.blobstores[j].store)->Leaf_0.kind
                is Disabled),
        forall|j: int|
            0 <= j < m.blobstores.len() ==> !(#[trigger] m.blobstores[j].store)->Leaf_0.kv.contains_key(
                key,
            ),
        mux_put_result(m, key, Some(PutBehaviour::Overwrite)) is Ok,
    ensures
        mux_get(mux_after_put(m, key, value, Some(PutBehaviour::Overwrite)), key) matches Ok(
            Some(p),
        ) && p.1 == value,
{
    let b = Some(PutBehaviour::Overwrite);
    let cs = m.blobstores;
    let m2 = mux_after_put(m, key, value, b);
    let cs2 = m2.blobstores;
    lemma_children_after_put_index(cs, key, value, b);
    assert(cs2 == children_after_put(cs, key, value, b));
    lemma_answering_after_put(cs, key, value, 0);
    assert(answering_count(cs2, key, value, 0) >= m.quorum.write);
    assert forall|j: int| 0 <= j < cs2.len() implies !(#[trigger] cs2[j]).reads_disabled by {
        assert(cs2[j] == child_after_put(cs[j], key, value, b));
    }
    assert forall|j: int|
        0 <= j < cs2.len() implies (match child_get(#[trigger] cs2[j], key) {
        Ok(Some(w)) => w == value,
        _ => true,
    }) by {
        assert(cs2[j] == child_after_put(cs[j], key, value, b));
        lemma_child_get_after_put(cs[j], key, value);
    }
    assert(m2.quorum == m.quorum);
    assert(m2.blobstores.len() == cs.len());
    law_get_committed(m2, key, value);
}

/// Whether a built store is a single backend with chaos injection
/// configured.
pub open spec fn store_chaotic(s: StoreView) -> bool {
    s matches StoreView::Leaf(l) && l.chaos.spec_has_chaos()
}

/// Whether a configuration takes the standard wrappers when built.
pub open spec fn cfg_takes_wrappers(c: BlobConfigView) -> bool {
    match c {
        BlobConfigView::Files { .. } => true,
        BlobConfigView::Sqlite { .. } => true,
        BlobConfigView::Mysql { .. } => true,
        BlobConfigView::AwsS3 { .. } => true,
        BlobConfigView::S3 { .. } => true,
        BlobConfigView::Disabled => true,
        BlobConfigView::Pack { .. } => true,
        BlobConfigView::Logging { .. } => false,
        BlobConfigView::MultiplexedWal { .. } => false,
    }
}

/// A wrapper-taking configuration built with chaos options yields a
/// chaotic backend; built with cleared chaos it yields a quiet one.
proof fn lemma_child_chaos(c: BlobConfigView, ro: bool, opts: BlobstoreOptions, s: StoreView)
    requires
        cfg_takes_wrappers(c),
        spec_build_store(c, ro, opts) == Ok::<StoreView, ConfigError>(s),
    ensures
        store_chaotic(s) == opts.chaos_options.spec_has_chaos(),
{
}

/// The children a multiplex was built from, element-wise.
proof fn lemma_build_children_index(
    inner: Seq<(u64, MultiplexedStoreType, BlobConfigView)>,
    opts: BlobstoreOptions,
    i: int,
    built: Seq<(u64, MultiplexedStoreType, StoreView)>,
)
    requires
        0 <= i <= inner.len(),
        spec_build_children(inner, opts, i) == Ok::<
            Seq<(u64, MultiplexedStoreType, StoreView)>,
            ConfigError,
        >(built),
    ensures
        built.len() == inner.len() - i,
        forall|j: int|
            i <= j < inner.len() ==> spec_build_store(
                inner[j].2,
                spec_component_ro(opts),
                spec_child_opts(opts, j),
            ) == Ok::<StoreView, ConfigError>(#[trigger] built[j - i].2) && built[j - i].0
                == inner[j].0 && built[j - i].1 == inner[j].1,
    decreases inner.len() - i,
{
    if i < inner.len() {
        match spec_build_store(inner[i].2, spec_component_ro(opts), spec_child_opts(opts, i)) {
            Err(_) => {
                assert(false);
            },
            Ok(s) => {
                match spec_build_children(inner, opts, i + 1) {
                    Err(_) => {
                        assert(false);
                    },
                    Ok(rest) => {
                        lemma_build_children_index(inner, opts, i + 1, rest);
                        assert forall|j: int| i <= j < inner.len() implies spec_build_store(
                            inner[j].2,
                            spec_component_ro(opts),
                            spec_child_opts(opts, j),
                        ) == Ok::<StoreView, ConfigError>(#[trigger] built[j - i].2) && built[j
                            - i].0 == inner[j].0 && built[j - i].1 == inner[j].1 by {
                            if j > i {
                                assert(built[j - i] == rest[j - (i + 1)]);
                            }
                        }
                    },
                }
            },
        }
    }
}

/// Chaos anti-repeat: within a multiplex whose inner backends all take
/// the standard wrappers, chaos injection lands on exactly the first
/// inner backend — every later one is built with a cleared chaos
/// configuration.
pub proof fn law_chaos_anti_repeat(
    inner: Seq<(u64, MultiplexedStoreType, BlobConfigView)>,
    opts: BlobstoreOptions,
    built: Seq<(u64, MultiplexedStoreType, StoreView)>,
)
    requires
        opts.chaos_options.spec_has_chaos(),
        forall|j: int| 0 <= j < inner.len() ==> cfg_takes_wrappers(#[trigger] inner[j].2),
        spec_build_children(inner, opts, 0) == Ok::<
            Seq<(u64, MultiplexedStoreType, StoreView)>,
            ConfigError,
        >(built),
    ensures
        built.len() == inner.len(),
        inner.len() > 0 ==> store_chaotic(built[0].2),
        forall|j: int| 1 <= j < built.len() ==> !store_chaotic(#[trigger] built[j].2),
{
    lemma_build_children_index(inner, opts, 0, built);
    if inner.len() > 0 {
        assert(built[0 - 0] == built[0]);
        lemma_child_chaos(inner[0].2, spec_component_ro(opts), spec_child_opts(opts, 0), built[0].2);
    }
    assert forall|j: int| 1 <= j < built.len() implies !store_chaotic(#[trigger] built[j].2) by {
        assert(built[j - 0] == built[j]);
        assert(spec_build_store(
            inner[j].2,
            spec_component_ro(opts),
            spec_child_opts(opts, j),
        ) == Ok::<StoreView, ConfigError>(built[j - 0].2));
        lemma_child_chaos(
            inner[j].2,
            spec_component_ro(opts),
            spec_child_opts(opts, j),
            built[j].2,
        );
        assert(!spec_child_opts(opts, j).chaos_options.spec_has_chaos());
    }
}

/// Decorator-stack idempotence: building a wrapper variant around an
/// inner store that has already applied its wrappers adds nothing — in
/// particular, a logging node around a multiplex builds exactly what
/// the multiplex alone builds, so wrapping a multiplex a second time is
/// a no-op.
pub proof fn law_wrapper_idempotence(cfg: BlobConfigView, ro: bool, opts: BlobstoreOptions)
    requires
        cfg matches BlobConfigView::Logging { .. },
    ensures
        spec_build_store(cfg, ro, opts) == spec_build_store(*cfg->Logging_blobconfig, ro, opts),
{
}

} // verus!
