//! The scrubbing read path used by the healer: consult every normal
//! backend, return the majority value, and in repair mode write that
//! value back to lagging replicas — unless the write is younger than the
//! scrub grace, in which case the normal quorum protocol is left alone.

use vstd::prelude::*;
use crate::kv::bytes_eq;
use crate::kv::clone_bytes;
use crate::multiplex::MuxView;
use crate::multiplex::TimedStoreView;
use crate::multiplex::WalMultiplexedBlobstore;
use crate::multiplex::children_views;
use crate::multiplex::lemma_children_repr_wf;
use crate::multiplex::lemma_children_views;
use crate::multiplex::mux_repr_wf;
use crate::multiplex::store_repr_wf;
use crate::multiplex::timed_store_view;
use crate::options::ScrubAction;
use crate::options::ScrubOptions;
use crate::semantics::ch_height;
use crate::semantics::child_after_put;
use crate::semantics::child_get;
use crate::semantics::child_is_present;
use crate::semantics::lemma_ch_height_bound;
use crate::semantics::sv_height;
use crate::types::ErrorKind;
use crate::types::ErrorKindView;
use crate::types::IsPresentView;
use crate::types::PutBehaviour;
use crate::types::StoreError;
use crate::types::StoreErrorView;
use crate::types::error_list_view;
use crate::types::get_res_view;
use crate::types::mux_data_res_view;
use crate::types::store_error_view;

verus! {

/// One backend's answer during a scrubbed read.
pub type ScrubAnswer = (u64, Result<Option<Seq<u8>>, StoreErrorView>);

/// The answers of every child from `i` on, in order.
pub open spec fn scrub_answers_from(cs: Seq<TimedStoreView>, key: Seq<u8>, i: int) -> Seq<
    ScrubAnswer,
>
    decreases ch_height(cs) + 1, 2int, cs.len() - i,
    via scrub_answers_from_decreases
{
    if i < 0 || i >= cs.len() {
        Seq::empty()
    } else {
        seq![(cs[i].id, child_get(cs[i], key))] + scrub_answers_from(cs, key, i + 1)
    }
}

#[via_fn]
proof fn scrub_answers_from_decreases(cs: Seq<TimedStoreView>, key: Seq<u8>, i: int) {
    lemma_ch_height_bound(cs);
}

/// The value an answer reported, if any.
pub open spec fn answer_value(a: ScrubAnswer) -> Option<Seq<u8>> {
    match a.1 {
        Ok(Some(v)) => Some(v),
        Ok(None) => None,
        Err(_) => None,
    }
}

/// How many answers from `i` on reported this value.
pub open spec fn count_value_from(rs: Seq<ScrubAnswer>, v: Seq<u8>, i: int) -> int
    decreases rs.len() - i,
{
    if i < 0 || i >= rs.len() {
        0
    } else {
        (if answer_value(rs[i]) == Some(v) {
            1int
        } else {
            0int
        }) + count_value_from(rs, v, i + 1)
    }
}

/// The first answer from `i` on that reported a value; the length when
/// none did.
pub open spec fn first_value_ix(rs: Seq<ScrubAnswer>, i: int) -> int
    decreases rs.len() - i,
{
    if i < 0 || i >= rs.len() {
        rs.len() as int
    } else if answer_value(rs[i]) is Some {
        i
    } else {
        first_value_ix(rs, i + 1)
    }
}

/// The index of the majority value: scan from `j`, switching from the
/// best index `b` only on a strictly larger count, so ties keep the
/// first-seen value.
pub open spec fn best_value_ix(rs: Seq<ScrubAnswer>, j: int, b: int) -> int
    decreases rs.len() - j,
{
    if j < 0 || j >= rs.len() {
        b
    } else if answer_value(rs[j]) matches Some(w) && count_value_from(rs, w, 0) > count_value_from(
        rs,
        answer_value(rs[b]).unwrap(),
        0,
    ) {
        best_value_ix(rs, j + 1, j)
    } else {
        best_value_ix(rs, j + 1, b)
    }
}

/// The majority value among the answers, when any value was found.
pub open spec fn scrub_winner(rs: Seq<ScrubAnswer>) -> Option<Seq<u8>> {
    let f = first_value_ix(rs, 0);
    if f >= rs.len() {
        None
    } else {
        answer_value(rs[best_value_ix(rs, f + 1, f)])
    }
}

/// How many answers from `i` on said the key is absent.
pub open spec fn absent_count_from(rs: Seq<ScrubAnswer>, i: int) -> int
    decreases rs.len() - i,
{
    if i < 0 || i >= rs.len() {
        0
    } else {
        (if rs[i].1 == Ok::<Option<Seq<u8>>, StoreErrorView>(None) {
            1int
        } else {
            0int
        }) + absent_count_from(rs, i + 1)
    }
}

/// The failures among the answers from `i` on, in order.
pub open spec fn scrub_errs_from(rs: Seq<ScrubAnswer>, i: int) -> Seq<(u64, StoreErrorView)>
    decreases rs.len() - i,
{
    if i < 0 || i >= rs.len() {
        Seq::empty()
    } else {
        match rs[i].1 {
            Err(e) => seq![(rs[i].0, e)] + scrub_errs_from(rs, i + 1),
            Ok(_) => scrub_errs_from(rs, i + 1),
        }
    }
}

/// Whether the write-ahead log shows a write of this key too young to
/// repair: an entry within the queue peek bound whose age is below the
/// grace. Without a configured grace nothing blocks repair.
pub open spec fn scrub_within_grace(m: MuxView, key: Seq<u8>, so: ScrubOptions) -> bool {
    match so.scrub_grace {
        None => false,
        Some(grace) => exists|i: int|
            0 <= i < m.wal_queue.entries.len() && #[trigger] m.wal_queue.entries[i].key == key
                && m.wal_queue.entries[i].multiplex_id == m.multiplex_id
                && m.wal_queue.entries[i].timestamp + grace >= m.clock
                && m.wal_queue.entries[i].timestamp + so.queue_peek_bound >= m.clock,
    }
}

/// Whether this child lags behind the majority value and should be
/// repaired: it answered "absent" or answered a different value.
pub open spec fn scrub_child_lags(a: ScrubAnswer, winner: Seq<u8>) -> bool {
    match a.1 {
        Ok(None) => true,
        Ok(Some(w)) => w != winner,
        Err(_) => false,
    }
}

/// What a scrubbed read returns: the majority value if any backend holds
/// one; absence once a negative quorum of backends says so; otherwise
/// the accumulated failures, fatal only when every backend failed.
pub open spec fn mux_scrub_get_result(m: MuxView, key: Seq<u8>) -> Result<
    Option<Seq<u8>>,
    ErrorKindView,
> {
    let rs = scrub_answers_from(m.blobstores, key, 0);
    match scrub_winner(rs) {
        Some(v) => Ok(Some(v)),
        None => {
            let errs = scrub_errs_from(rs, 0);
            if errs.len() == rs.len() && rs.len() > 0 {
                Err(ErrorKindView::AllFailed(errs))
            } else if absent_count_from(rs, 0) >= crate::semantics::spec_min(
                m.quorum.read as int,
                rs.len() as int,
            ) {
                Ok(None)
            } else {
                Err(ErrorKindView::SomeGetsFailed(errs))
            }
        },
    }
}

/// Whether a scrubbed read repairs lagging replicas: repair mode, and
/// the write is not within the grace window.
pub open spec fn scrub_repairs(m: MuxView, key: Seq<u8>, so: ScrubOptions) -> bool {
    so.scrub_action == ScrubAction::Repair && !scrub_within_grace(m, key, so)
}

/// The normal children after a scrubbed read: lagging replicas get the
/// majority value written back, the rest are untouched.
pub open spec fn children_after_scrub(
    cs: Seq<TimedStoreView>,
    rs: Seq<ScrubAnswer>,
    key: Seq<u8>,
    winner: Seq<u8>,
) -> Seq<TimedStoreView>
    decreases ch_height(cs) + 1, 2int, cs.len(),
{
    if cs.len() == 0 {
        Seq::empty()
    } else {
        children_after_scrub(cs.drop_last(), rs.drop_last(), key, winner).push(
            if rs.len() == cs.len() && scrub_child_lags(rs.last(), winner) {
                child_after_put(
                    cs.last(),
                    key,
                    winner,
                    Some(crate::types::PutBehaviour::Overwrite),
                )
            } else {
                cs.last()
            },
        )
    }
}

pub proof fn lemma_children_after_scrub_index(
    cs: Seq<TimedStoreView>,
    rs: Seq<ScrubAnswer>,
    key: Seq<u8>,
    winner: Seq<u8>,
)
    requires
        rs.len() == cs.len(),
    ensures
        children_after_scrub(cs, rs, key, winner).len() == cs.len(),
        forall|i: int|
            0 <= i < cs.len() ==> #[trigger] children_after_scrub(cs, rs, key, winner)[i] == (
            if scrub_child_lags(rs[i], winner) {
                child_after_put(cs[i], key, winner, Some(crate::types::PutBehaviour::Overwrite))
            } else {
                cs[i]
            }),
    decreases cs.len(),
{
    if cs.len() > 0 {
        lemma_children_after_scrub_index(cs.drop_last(), rs.drop_last(), key, winner);
        assert forall|i: int| 0 <= i < cs.len() implies #[trigger] children_after_scrub(
            cs,
            rs,
            key,
            winner,
        )[i] == (if scrub_child_lags(rs[i], winner) {
            child_after_put(cs[i], key, winner, Some(crate::types::PutBehaviour::Overwrite))
        } else {
            cs[i]
        }) by {
            if i < cs.len() - 1 {
                assert(cs.drop_last()[i] == cs[i]);
                assert(rs.drop_last()[i] == rs[i]);
            }
        }
    }
}

/// The answers of every child, element-wise.
pub proof fn lemma_scrub_answers_index(cs: Seq<TimedStoreView>, key: Seq<u8>, i: int)
    requires
        0 <= i <= cs.len(),
    ensures
        scrub_answers_from(cs, key, i).len() == cs.len() - i,
        forall|j: int|
            i <= j < cs.len() ==> #[trigger] scrub_answers_from(cs, key, i)[j - i] == (
            cs[j].id,
            child_get(cs[j], key),
            ),
    decreases cs.len() - i,
{
    if i < cs.len() {
        lemma_scrub_answers_index(cs, key, i + 1);
        assert forall|j: int| i <= j < cs.len() implies #[trigger] scrub_answers_from(cs, key, i)[j
            - i] == (cs[j].id, child_get(cs[j], key)) by {
            if j > i {
                assert(scrub_answers_from(cs, key, i)[j - i] == scrub_answers_from(cs, key, i + 1)[
                    j - (i + 1)]);
            }
        }
    }
}

/// Whether a write-only backend counts as lagging during a scrub: it
/// observably lacks the key.
pub open spec fn wo_child_lags(c: TimedStoreView, key: Seq<u8>) -> bool {
    child_is_present(c, key) == Ok::<IsPresentView, StoreErrorView>(IsPresentView::Absent)
}

/// The write-only children after a scrubbed read, when absence there is
/// treated as a discrepancy.
pub open spec fn wo_after_scrub(cs: Seq<TimedStoreView>, key: Seq<u8>, winner: Seq<u8>) -> Seq<
    TimedStoreView,
>
    decreases ch_height(cs) + 1, 2int, cs.len(),
{
    if cs.len() == 0 {
        Seq::empty()
    } else {
        wo_after_scrub(cs.drop_last(), key, winner).push(
            if wo_child_lags(cs.last(), key) {
                child_after_put(
                    cs.last(),
                    key,
                    winner,
                    Some(crate::types::PutBehaviour::Overwrite),
                )
            } else {
                cs.last()
            },
        )
    }
}

pub proof fn lemma_wo_after_scrub_index(cs: Seq<TimedStoreView>, key: Seq<u8>, winner: Seq<u8>)
    ensures
        wo_after_scrub(cs, key, winner).len() == cs.len(),
        forall|i: int|
            0 <= i < cs.len() ==> #[trigger] wo_after_scrub(cs, key, winner)[i] == (if wo_child_lags(
                cs[i],
                key,
            ) {
                child_after_put(cs[i], key, winner, Some(crate::types::PutBehaviour::Overwrite))
            } else {
                cs[i]
            }),
    decreases cs,
{
    if cs.len() > 0 {
        lemma_wo_after_scrub_index(cs.drop_last(), key, winner);
        assert forall|i: int| 0 <= i < cs.len() implies #[trigger] wo_after_scrub(
            cs,
            key,
            winner,
        )[i] == (if wo_child_lags(cs[i], key) {
            child_after_put(cs[i], key, winner, Some(crate::types::PutBehaviour::Overwrite))
        } else {
            cs[i]
        }) by {
            if i < cs.len() - 1 {
                assert(cs.drop_last()[i] == cs[i]);
            }
        }
    }
}

/// The multiplexer after a scrubbed read.
pub open spec fn mux_after_scrub_get(m: MuxView, key: Seq<u8>, so: ScrubOptions) -> MuxView {
    let rs = scrub_answers_from(m.blobstores, key, 0);
    match scrub_winner(rs) {
        Some(v) => if scrub_repairs(m, key, so) {
            MuxView {
                blobstores: children_after_scrub(m.blobstores, rs, key, v),
                write_only_blobstores: if so.scrub_action_on_missing_write_only
                    == crate::options::ScrubWriteOnly::TreatMissingAsDiscrepancy {
                    wo_after_scrub(m.write_only_blobstores, key, v)
                } else {
                    m.write_only_blobstores
                },
                ..m
            }
        } else {
            m
        },
        None => m,
    }
}

/// Mathematical view of the answers a scrubbed read collected.
pub open spec fn answers_view(s: Seq<(u64, Result<Option<Vec<u8>>, StoreError>)>) -> Seq<
    ScrubAnswer,
>
    decreases s,
{
    if s.len() == 0 {
        Seq::empty()
    } else {
        answers_view(s.drop_last()).push((s.last().0, get_res_view(s.last().1)))
    }
}

pub proof fn lemma_answers_view_index(s: Seq<(u64, Result<Option<Vec<u8>>, StoreError>)>)
    ensures
        answers_view(s).len() == s.len(),
        forall|i: int|
            0 <= i < s.len() ==> #[trigger] answers_view(s)[i] == (s[i].0, get_res_view(s[i].1)),
    decreases s,
{
    if s.len() > 0 {
        lemma_answers_view_index(s.drop_last());
        assert forall|i: int| 0 <= i < s.len() implies #[trigger] answers_view(s)[i] == (
        s[i].0,
        get_res_view(s[i].1),
        ) by {
            if i < s.len() - 1 {
                assert(s.drop_last()[i] == s[i]);
            }
        }
    }
}

/// Count the answers reporting exactly this value.
#[verifier::loop_isolation(false)]
fn count_value(ans: &Vec<(u64, Result<Option<Vec<u8>>, StoreError>)>, v: &Vec<u8>) -> (r: usize)
    ensures
        r == count_value_from(answers_view(ans@), v@, 0),
{
    let ghost rs = answers_view(ans@);
    proof {
        lemma_answers_view_index(ans@);
    }
    let n = ans.len();
    let mut cnt: usize = 0;
    let mut i: usize = 0;
    while i < n
        invariant
            i <= n,
            cnt <= i,
            cnt + count_value_from(rs, v@, i as int) == count_value_from(rs, v@, 0),
        decreases n - i,
    {
        let hit = match &ans[i].1 {
            Ok(Some(w)) => bytes_eq(w, v),
            _ => false,
        };
        if hit {
            cnt = cnt + 1;
        }
        i = i + 1;
    }
    cnt
}

impl WalMultiplexedBlobstore {
    /// Whether the write-ahead log shows a write of this key too young
    /// to repair.
    #[verifier::loop_isolation(false)]
    fn scrub_blocked(&self, key: &Vec<u8>, so: &ScrubOptions) -> (r: bool)
        ensures
            r == scrub_within_grace(self@, key@, *so),
    {
        let grace = match so.scrub_grace {
            None => {
                return false;
            },
            Some(g) => g,
        };
        let n = self.wal_queue.entries.len();
        let mut i: usize = 0;
        while i < n
            invariant
                i <= n,
                n == self@.wal_queue.entries.len(),
                forall|j: int|
                    0 <= j < i ==> !(#[trigger] self@.wal_queue.entries[j].key == key@
                        && self@.wal_queue.entries[j].multiplex_id == self@.multiplex_id
                        && self@.wal_queue.entries[j].timestamp + grace >= self@.clock
                        && self@.wal_queue.entries[j].timestamp + so.queue_peek_bound
                        >= self@.clock),
            decreases n - i,
        {
            let e = &self.wal_queue.entries[i];
            if e.multiplex_id == self.multiplex_id && bytes_eq(&e.key, key) && (e.timestamp as i128)
                + (grace as i128) >= (self.clock as i128) && (e.timestamp as i128)
                + (so.queue_peek_bound as i128) >= (self.clock as i128) {
                proof {
                    assert(self@.wal_queue.entries[i as int].key == key@);
                }
                return true;
            }
            i = i + 1;
        }
        false
    }

    /// The healer's read: consult every normal backend, return the
    /// majority value, and in repair mode write it back to lagging
    /// replicas unless the write is within the scrub grace.
    #[verifier::loop_isolation(false)]
    #[verifier::rlimit(100)]
    pub fn scrub_get(&mut self, key: &Vec<u8>) -> (r: Result<Option<Vec<u8>>, ErrorKind>)
        requires
            mux_repr_wf(*old(self)),
            old(self).scrub_options is Some,
        ensures
            mux_repr_wf(*final(self)),
            final(self)@ == mux_after_scrub_get(
                old(self)@,
                key@,
                old(self).scrub_options->0,
            ),
            mux_data_res_view(r) == mux_scrub_get_result(old(self)@, key@),
    {
        let ghost mv0 = self@;
        let ghost cs0 = mv0.blobstores;
        let ghost wo0 = mv0.write_only_blobstores;
        let ghost ex0 = self.blobstores@;
        let ghost exw0 = self.write_only_blobstores@;
        let ghost rs = scrub_answers_from(cs0, key@, 0);
        proof {
            lemma_children_views(self.blobstores@);
            lemma_children_views(self.write_only_blobstores@);
            lemma_children_repr_wf(self.blobstores@);
            lemma_children_repr_wf(self.write_only_blobstores@);
            lemma_ch_height_bound(cs0);
            lemma_ch_height_bound(wo0);
            lemma_scrub_answers_index(cs0, key@, 0);
        }
        // Consult every normal backend; do not return early.
        let n = self.blobstores.len();
        let mut ans: Vec<(u64, Result<Option<Vec<u8>>, StoreError>)> = Vec::new();
        let mut i: usize = 0;
        while i < n
            invariant
                i <= n,
                ans@.len() == i,
                forall|j: int|
                    0 <= j < i ==> #[trigger] answers_view(ans@)[j] == rs[j],
            decreases n - i,
        {
            proof {
                assert(cs0[i as int] == timed_store_view(self.blobstores@[i as int]));
                assert(store_repr_wf(self.blobstores@[i as int].store));
                assert(sv_height(cs0[i as int].store) <= ch_height(cs0));
            }
            let ghost pre = ans@;
            let res = self.blobstores[i].get(key);
            ans.push((self.blobstores[i].id, res));
            proof {
                assert(ans@.drop_last() =~= pre);
                lemma_answers_view_index(ans@);
            }
            i = i + 1;
        }
        proof {
            lemma_answers_view_index(ans@);
            assert(answers_view(ans@) =~= rs);
        }
        // Find the first value, then the majority value.
        let mut f: usize = 0;
        while f < n
            invariant
                f <= n,
                n == rs.len(),
                answers_view(ans@) == rs,
                ans@.len() == n,
                first_value_ix(rs, 0) == first_value_ix(rs, f as int),
            decreases n - f,
        {
            proof {
                lemma_answers_view_index(ans@);
            }
            let found = match &ans[f].1 {
                Ok(Some(_)) => true,
                _ => false,
            };
            if found {
                break ;
            }
            f = f + 1;
        }
        proof {
            lemma_answers_view_index(ans@);
            assert(first_value_ix(rs, 0) == f as int);
        }
        if f == n {
            // No backend holds a value: decide absence or failure.
            proof {
                assert(self@ == mv0);
                assert(mux_after_scrub_get(mv0, key@, old(self).scrub_options->0) == mv0);
            }
            let mut absents: usize = 0;
            let mut errs: Vec<(u64, StoreError)> = Vec::new();
            let mut j: usize = 0;
            let mut ans2 = ans;
            proof {
                assert(error_list_view(errs@) =~= Seq::<(u64, StoreErrorView)>::empty());
                assert(answers_view(ans2@) =~= rs.skip(0));
            }
            while ans2.len() > 0
                invariant
                    j <= n,
                    n == rs.len(),
                    ans2@.len() == n - j,
                    answers_view(ans2@) =~= rs.skip(j as int),
                    absents + absent_count_from(rs, j as int) == absent_count_from(rs, 0),
                    scrub_errs_from(rs, 0) =~= error_list_view(errs@) + scrub_errs_from(
                        rs,
                        j as int,
                    ),
                    absents <= j,
                    errs@.len() <= j,
                decreases ans2@.len(),
            {
                proof {
                    lemma_answers_view_index(ans2@);
                    assert(answers_view(ans2@)[0] == rs[j as int]);
                }
                let (id, res) = ans2.remove(0);
                proof {
                    assert(answers_view(ans2@) =~= rs.skip(j + 1)) by {
                        lemma_answers_view_index(ans2@);
                        assert forall|t: int| 0 <= t < ans2@.len() implies answers_view(ans2@)[t]
                            == rs.skip(j + 1)[t] by {
                            assert(rs.skip(j + 1)[t] == rs[j + 1 + t]);
                            assert(rs.skip(j as int)[t + 1] == rs[j + 1 + t]);
                        }
                    }
                }
                match res {
                    Ok(None) => {
                        absents = absents + 1;
                    },
                    Ok(Some(_)) => {},
                    Err(e) => {
                        let ghost pre = errs@;
                        errs.push((id, e));
                        proof {
                            assert(errs@.drop_last() =~= pre);
                            assert(error_list_view(errs@) == error_list_view(pre).push(
                                (id, store_error_view(e)),
                            ));
                            assert(scrub_errs_from(rs, j as int) =~= seq![
                                (id, store_error_view(e)),
                            ] + scrub_errs_from(rs, j + 1));
                            assert(error_list_view(errs@) + scrub_errs_from(rs, j + 1)
                                =~= error_list_view(pre) + scrub_errs_from(rs, j as int));
                        }
                    },
                }
                j = j + 1;
            }
            proof {
                assert(j == n);
                assert(absent_count_from(rs, n as int) == 0);
                assert(scrub_errs_from(rs, n as int) =~= Seq::<(u64, StoreErrorView)>::empty());
                assert(scrub_errs_from(rs, 0) =~= error_list_view(errs@));
                crate::types::lemma_error_list_view_index(errs@);
            }
            let q0 = if self.quorum.read < n {
                self.quorum.read
            } else {
                n
            };
            if errs.len() == n && n > 0 {
                return Err(ErrorKind::AllFailed(errs));
            }
            if absents >= q0 {
                return Ok(None);
            }
            return Err(ErrorKind::SomeGetsFailed(errs));
        }
        // The majority value wins; first-seen breaks ties.
        let mut best: usize = f;
        let mut j: usize = f + 1;
        while j < n
            invariant
                f < n,
                f < j,
                f <= best < n,
                j <= n,
                n == rs.len(),
                answers_view(ans@) == rs,
                ans@.len() == n,
                answer_value(rs[best as int]) is Some,
                best_value_ix(rs, f + 1 as int, f as int) == best_value_ix(
                    rs,
                    j as int,
                    best as int,
                ),
            decreases n - j,
        {
            let ghost b0 = best as int;
            proof {
                lemma_answers_view_index(ans@);
                assert(rs[j as int] == (ans@[j as int].0, get_res_view(ans@[j as int].1)));
                assert(rs[b0] == (ans@[b0].0, get_res_view(ans@[b0].1)));
            }
            let better = match &ans[j].1 {
                Ok(Some(w)) => {
                    let cw = count_value(&ans, w);
                    let cb = match &ans[best].1 {
                        Ok(Some(wb)) => count_value(&ans, wb),
                        _ => 0,
                    };
                    cw > cb
                },
                _ => false,
            };
            proof {
                assert(better == (answer_value(rs[j as int]) matches Some(w)
                    && count_value_from(rs, w, 0) > count_value_from(
                    rs,
                    answer_value(rs[b0]).unwrap(),
                    0,
                )));
            }
            if better {
                best = j;
            }
            proof {
                assert(best_value_ix(rs, j as int, b0) == best_value_ix(
                    rs,
                    j + 1,
                    best as int,
                ));
            }
            j = j + 1;
        }
        proof {
            lemma_answers_view_index(ans@);
            assert(best_value_ix(rs, f + 1 as int, f as int) == best as int);
        }
        let winner: Vec<u8> = match &ans[best].1 {
            Ok(Some(w)) => clone_bytes(w),
            _ => {
                proof {
                    assert(false);
                }
                Vec::new()
            },
        };
        proof {
            assert(scrub_winner(rs) == Some(winner@));
        }
        // Repair lagging replicas, unless the write is within grace.
        let so = match &self.scrub_options {
            Some(s) => *s,
            None => {
                proof {
                    assert(false);
                }
                crate::options::ScrubOptions::basic()
            },
        };
        let repair = match so.scrub_action {
            ScrubAction::Repair => !self.scrub_blocked(key, &so),
            ScrubAction::ReportOnly => false,
        };
        proof {
            assert(repair == scrub_repairs(mv0, key@, so));
        }
        if repair {
            let ghost w1 = self.wal_queue;
            let ghost sc1 = self.scuba;
            let mut t: usize = 0;
            while t < n
                invariant
                    t <= n,
                    n == self.blobstores@.len(),
                    n == rs.len(),
                    forall|j2: int| t <= j2 < n ==> self.blobstores@[j2] == ex0[j2],
                    forall|j2: int|
                        0 <= j2 < t ==> (#[trigger] self.blobstores@[j2])@ == (if scrub_child_lags(
                            rs[j2],
                            winner@,
                        ) {
                            child_after_put(
                                cs0[j2],
                                key@,
                                winner@,
                                Some(crate::types::PutBehaviour::Overwrite),
                            )
                        } else {
                            cs0[j2]
                        }),
                    forall|j2: int|
                        0 <= j2 < t ==> store_repr_wf((#[trigger] self.blobstores@[j2]).store),
                    ans@.len() == n,
                    answers_view(ans@) == rs,
                    self.wal_queue == w1,
                    self.scuba == sc1,
                    self.clock == old(self).clock,
                    self.multiplex_id == old(self).multiplex_id,
                    self.quorum == old(self).quorum,
                    self.write_only_blobstores@ == exw0,
                    self.inflight_ops_counter == old(self).inflight_ops_counter,
                    self.scrub_options == old(self).scrub_options,
                decreases n - t,
            {
                proof {
                    lemma_answers_view_index(ans@);
                    assert(self.blobstores@[t as int] == ex0[t as int]);
                    assert(cs0[t as int] == timed_store_view(ex0[t as int]));
                    assert(sv_height(cs0[t as int].store) <= ch_height(cs0));
                    assert(store_repr_wf(ex0[t as int].store));
                }
                let lags = match &ans[t].1 {
                    Ok(None) => true,
                    Ok(Some(w)) => !bytes_eq(w, &winner),
                    Err(_) => false,
                };
                if lags {
                    let _ = self.blobstores[t].put(key, &winner, Some(PutBehaviour::Overwrite));
                } else {
                    proof {
                        assert(self.blobstores@[t as int]@ == cs0[t as int]);
                    }
                }
                t = t + 1;
            }
            // Write-only backends join when their absence counts as a
            // discrepancy.
            let wo_repair = match so.scrub_action_on_missing_write_only {
                crate::options::ScrubWriteOnly::TreatMissingAsDiscrepancy => true,
                crate::options::ScrubWriteOnly::SkipMissing => false,
            };
            let ghost bs2 = self.blobstores@;
            if wo_repair {
                let wn = self.write_only_blobstores.len();
                let mut t: usize = 0;
                while t < wn
                    invariant
                        t <= wn,
                        wn == self.write_only_blobstores@.len(),
                        wn == wo0.len(),
                        forall|j2: int|
                            t <= j2 < wn ==> self.write_only_blobstores@[j2] == exw0[j2],
                        forall|j2: int|
                            0 <= j2 < t ==> (#[trigger] self.write_only_blobstores@[j2])@ == (
                            if wo_child_lags(wo0[j2], key@) {
                                child_after_put(
                                    wo0[j2],
                                    key@,
                                    winner@,
                                    Some(crate::types::PutBehaviour::Overwrite),
                                )
                            } else {
                                wo0[j2]
                            }),
                        forall|j2: int|
                            0 <= j2 < t ==> store_repr_wf(
                                (#[trigger] self.write_only_blobstores@[j2]).store,
                            ),
                        self.blobstores@ == bs2,
                        self.wal_queue == w1,
                        self.scuba == sc1,
                        self.clock == old(self).clock,
                        self.multiplex_id == old(self).multiplex_id,
                        self.quorum == old(self).quorum,
                        self.inflight_ops_counter == old(self).inflight_ops_counter,
                        self.scrub_options == old(self).scrub_options,
                    decreases wn - t,
                {
                    proof {
                        assert(self.write_only_blobstores@[t as int] == exw0[t as int]);
                        assert(wo0[t as int] == timed_store_view(exw0[t as int]));
                        assert(sv_height(wo0[t as int].store) <= ch_height(wo0));
                        assert(store_repr_wf(exw0[t as int].store));
                    }
                    let missing = match self.write_only_blobstores[t].is_present(key) {
                        Ok(crate::types::BlobstoreIsPresent::Absent) => true,
                        _ => false,
                    };
                    if missing {
                        let _ = self.write_only_blobstores[t].put(
                            key,
                            &winner,
                            Some(PutBehaviour::Overwrite),
                        );
                    } else {
                        proof {
                            assert(self.write_only_blobstores@[t as int]@ == wo0[t as int]);
                        }
                    }
                    t = t + 1;
                }
            }
            proof {
                lemma_children_after_scrub_index(cs0, rs, key@, winner@);
                lemma_children_views(self.blobstores@);
                assert(children_views(self.blobstores@) =~= children_after_scrub(
                    cs0,
                    rs,
                    key@,
                    winner@,
                ));
                if wo_repair {
                    lemma_wo_after_scrub_index(wo0, key@, winner@);
                    lemma_children_views(self.write_only_blobstores@);
                    assert(children_views(self.write_only_blobstores@) =~= wo_after_scrub(
                        wo0,
                        key@,
                        winner@,
                    ));
                }
                lemma_children_repr_wf(self.blobstores@);
                lemma_children_repr_wf(self.write_only_blobstores@);
                assert(self@ =~= mux_after_scrub_get(mv0, key@, so));
            }
        } else {
            proof {
                assert(self@ == mv0);
            }
        }
        Ok(Some(winner))
    }
}

} // verus!
