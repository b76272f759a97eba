//! Write/read quorum configuration: a multiplex over `n` normal backends
//! declares a put committed after `write` acknowledgements, and declares a
//! key absent after `read == n - write + 1` negative answers, so that the
//! two sets always intersect.

use vstd::prelude::*;

verus! {

/// Why a quorum configuration was rejected.
#[derive(Clone, Copy, Debug, PartialEq, Eq, Structural)]
pub enum QuorumError {
    /// More acknowledgements were asked for than there are backends.
    NotEnoughBlobstores,
    /// A write quorum of zero would commit puts nobody stored.
    WriteQuorumZero,
}

/// The pair of quorums a multiplex runs with.
#[derive(Clone, Copy, Debug, PartialEq, Eq, Structural)]
pub struct MultiplexQuorum {
    /// Negative answers needed to declare a key absent.
    pub read: usize,
    /// Acknowledgements needed to declare a put committed.
    pub write: usize,
}

impl MultiplexQuorum {
    /// Whether this quorum pair fits a multiplex over `num_stores` backends.
    pub open spec fn wf(&self, num_stores: nat) -> bool {
        &&& 1 <= self.write <= num_stores
        &&& self.read == num_stores - self.write + 1
    }

    /// Derive the quorum pair for `num_stores` backends and the configured
    /// write quorum. Rejected exactly when the write quorum exceeds the
    /// number of backends or is zero.
    pub fn new(num_stores: usize, write: usize) -> (r: Result<MultiplexQuorum, QuorumError>)
        ensures
            match r {
                Ok(q) => q.write == write && q.read == num_stores - write + 1 && q.wf(
                    num_stores as nat,
                ),
                Err(QuorumError::NotEnoughBlobstores) => write > num_stores,
                Err(QuorumError::WriteQuorumZero) => write == 0 && write <= num_stores,
            },
    {
        if write > num_stores {
            return Err(QuorumError::NotEnoughBlobstores);
        }
        if write == 0 {
            return Err(QuorumError::WriteQuorumZero);
        }
        Ok(MultiplexQuorum { write, read: num_stores - write + 1 })
    }
}

/// Two disjoint finite sets contribute their full lengths to their union.
proof fn lemma_disjoint_union_len<A>(s1: Set<A>, s2: Set<A>)
    requires
        s1.finite(),
        s2.finite(),
        s1.disjoint(s2),
    ensures
        s1.union(s2).len() == s1.len() + s2.len(),
    decreases s1.len(),
{
    if s1.is_empty() {
        assert(s1.union(s2) =~= s2);
    } else {
        let a = s1.choose();
        assert(s1.remove(a).union(s2) =~= s1.union(s2).remove(a));
        lemma_disjoint_union_len(s1.remove(a), s2);
    }
}

/// The quorum intersection bound: any set of `write` acknowledgers and any
/// set of `read` negative answerers, both drawn from the same `n` backends,
/// overlap in at least one backend.
pub proof fn lemma_quorum_overlap(q: MultiplexQuorum, n: nat, acks: Set<int>, negs: Set<int>)
    requires
        q.wf(n),
        acks.subset_of(vstd::set_lib::set_int_range(0, n as int)),
        negs.subset_of(vstd::set_lib::set_int_range(0, n as int)),
        acks.len() >= q.write,
        negs.len() >= q.read,
    ensures
        exists|i: int| acks.contains(i) && negs.contains(i),
{
    let all = vstd::set_lib::set_int_range(0, n as int);
    vstd::set_lib::lemma_int_range(0, n as int);
    vstd::set_lib::lemma_len_subset(acks, all);
    vstd::set_lib::lemma_len_subset(negs, all);
    if !(exists|i: int| acks.contains(i) && negs.contains(i)) {
        assert(acks.disjoint(negs));
        lemma_disjoint_union_len(acks, negs);
        assert(acks.union(negs).subset_of(all));
        vstd::set_lib::lemma_len_subset(acks.union(negs), all);
        assert(acks.len() + negs.len() <= n);
        assert(q.write + q.read == n + 1);
        assert(false);
    }
}

} // verus!
