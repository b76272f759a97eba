//! The key/value state a single backend holds: an association list of
//! byte-string keys to byte-string values, viewed as a mathematical map.

use vstd::prelude::*;

verus! {

/// Compare two byte strings.
pub fn bytes_eq(a: &Vec<u8>, b: &Vec<u8>) -> (r: bool)
    ensures
        r == (a@ == b@),
{
    if a.len() != b.len() {
        proof {
            assert(a@.len() != b@.len());
        }
        return false;
    }
    let n = a.len();
    let mut i: usize = 0;
    while i < n
        invariant
            i <= n,
            n == a@.len(),
            n == b@.len(),
            forall|j: int| 0 <= j < i ==> a@[j] == b@[j],
        decreases n - i,
    {
        if a[i] != b[i] {
            return false;
        }
        i = i + 1;
    }
    proof {
        assert(a@ =~= b@);
    }
    true
}

/// Copy a byte string.
pub fn clone_bytes(a: &Vec<u8>) -> (r: Vec<u8>)
    ensures
        r@ == a@,
{
    let mut r: Vec<u8> = Vec::new();
    let n = a.len();
    let mut i: usize = 0;
    while i < n
        invariant
            i <= n,
            n == a@.len(),
            r@ == a@.take(i as int),
        decreases n - i,
    {
        r.push(a[i]);
        proof {
            assert(r@ =~= a@.take(i + 1 as int));
        }
        i = i + 1;
    }
    proof {
        assert(a@.take(n as int) =~= a@);
    }
    r
}

/// A backend's blob state: keys are opaque non-empty byte strings, values
/// are immutable byte sequences.
pub struct KvStore {
    pub entries: Vec<(Vec<u8>, Vec<u8>)>,
}

/// The map described by an association list: later entries win, though a
/// well-formed store never repeats a key.
pub open spec fn kv_map_of(s: Seq<(Vec<u8>, Vec<u8>)>) -> Map<Seq<u8>, Seq<u8>>
    decreases s,
{
    if s.len() == 0 {
        Map::empty()
    } else {
        kv_map_of(s.drop_last()).insert(s.last().0@, s.last().1@)
    }
}

impl View for KvStore {
    type V = Map<Seq<u8>, Seq<u8>>;

    open spec fn view(&self) -> Map<Seq<u8>, Seq<u8>> {
        kv_map_of(self.entries@)
    }
}

pub proof fn lemma_kv_map_domain(s: Seq<(Vec<u8>, Vec<u8>)>)
    ensures
        forall|k: Seq<u8>|
            #[trigger] kv_map_of(s).contains_key(k) <==> exists|i: int|
                0 <= i < s.len() && s[i].0@ == k,
    decreases s,
{
    if s.len() > 0 {
        lemma_kv_map_domain(s.drop_last());
        assert forall|k: Seq<u8>| kv_map_of(s).contains_key(k) implies exists|i: int|
            0 <= i < s.len() && s[i].0@ == k by {
            if s.last().0@ == k {
                assert(s[s.len() - 1].0@ == k);
            } else {
                assert(kv_map_of(s.drop_last()).contains_key(k));
                let i = choose|i: int| 0 <= i < s.drop_last().len() && s.drop_last()[i].0@ == k;
                assert(s.drop_last()[i] == s[i]);
                assert(s[i].0@ == k);
            }
        }
        assert forall|k: Seq<u8>|
            exists|i: int| 0 <= i < s.len() && s[i].0@ == k implies kv_map_of(s).contains_key(
            k,
        ) by {
            let i = choose|i: int| 0 <= i < s.len() && s[i].0@ == k;
            if i < s.len() - 1 {
                assert(s.drop_last()[i].0@ == k);
                assert(exists|j: int| 0 <= j < s.drop_last().len() && s.drop_last()[j].0@ == k);
                assert(kv_map_of(s.drop_last()).contains_key(k));
            } else {
                assert(s.last().0@ == k);
            }
        }
    }
}

/// Whether an association list holds pairwise distinct keys.
pub open spec fn kv_entries_wf(s: Seq<(Vec<u8>, Vec<u8>)>) -> bool {
    forall|i: int, j: int| 0 <= i < j < s.len() ==> s[i].0@ != s[j].0@
}

/// In a well-formed list, each entry gives its key's value in the map.
pub proof fn lemma_kv_map_value(s: Seq<(Vec<u8>, Vec<u8>)>, i: int)
    requires
        kv_entries_wf(s),
        0 <= i < s.len(),
    ensures
        kv_map_of(s).contains_key(s[i].0@),
        kv_map_of(s)[s[i].0@] == s[i].1@,
    decreases s,
{
    lemma_kv_map_domain(s);
    if i == s.len() - 1 {
    } else {
        assert(kv_entries_wf(s.drop_last()));
        assert(s.drop_last()[i] == s[i]);
        lemma_kv_map_value(s.drop_last(), i);
        assert(s[i].0@ != s[s.len() - 1].0@);
    }
}

impl KvStore {
    /// Key uniqueness, the representation invariant.
    pub open spec fn wf(&self) -> bool {
        kv_entries_wf(self.entries@)
    }

    /// An empty store.
    pub fn new() -> (r: KvStore)
        ensures
            r.wf(),
            r@ == Map::<Seq<u8>, Seq<u8>>::empty(),
    {
        KvStore { entries: Vec::new() }
    }

    /// The position of a key in the representation, if any.
    fn find(&self, key: &Vec<u8>) -> (r: Option<usize>)
        requires
            self.wf(),
        ensures
            match r {
                Some(i) => i < self.entries@.len() && self.entries@[i as int].0@ == key@,
                None => forall|i: int| 0 <= i < self.entries@.len() ==> self.entries@[i].0@ != key@,
            },
    {
        let n = self.entries.len();
        let mut i: usize = 0;
        while i < n
            invariant
                i <= n,
                n == self.entries@.len(),
                forall|j: int| 0 <= j < i ==> self.entries@[j].0@ != key@,
            decreases n - i,
        {
            if bytes_eq(&self.entries[i].0, key) {
                return Some(i);
            }
            i = i + 1;
        }
        None
    }

    /// Whether the store holds the key.
    pub fn contains(&self, key: &Vec<u8>) -> (r: bool)
        requires
            self.wf(),
        ensures
            r == self@.contains_key(key@),
    {
        proof {
            lemma_kv_map_domain(self.entries@);
        }
        match self.find(key) {
            Some(_) => true,
            None => false,
        }
    }

    /// The value held for the key, if any.
    pub fn get(&self, key: &Vec<u8>) -> (r: Option<&Vec<u8>>)
        requires
            self.wf(),
        ensures
            match r {
                Some(v) => self@.contains_key(key@) && v@ == self@[key@],
                None => !self@.contains_key(key@),
            },
    {
        proof {
            lemma_kv_map_domain(self.entries@);
        }
        match self.find(key) {
            Some(i) => {
                proof {
                    lemma_kv_map_value(self.entries@, i as int);
                }
                Some(&self.entries[i].1)
            },
            None => None,
        }
    }

    /// Store a value under a key, replacing any previous value.
    pub fn insert(&mut self, key: Vec<u8>, value: Vec<u8>)
        requires
            old(self).wf(),
        ensures
            final(self).wf(),
            final(self)@ == old(self)@.insert(key@, value@),
    {
        proof {
            lemma_kv_map_domain(self.entries@);
        }
        let ghost pre = self.entries@;
        match self.find(&key) {
            Some(i) => {
                self.entries.set(i, (key, value));
                proof {
                    lemma_kv_set_effect(pre, self.entries@, i as int);
                }
            },
            None => {
                self.entries.push((key, value));
                proof {
                    assert(self.entries@.drop_last() =~= pre);
                }
            },
        }
    }

    /// Remove a key; report whether it was present.
    pub fn remove(&mut self, key: &Vec<u8>) -> (was_present: bool)
        requires
            old(self).wf(),
        ensures
            final(self).wf(),
            final(self)@ == old(self)@.remove(key@),
            was_present == old(self)@.contains_key(key@),
    {
        proof {
            lemma_kv_map_domain(self.entries@);
        }
        let ghost pre = self.entries@;
        match self.find(key) {
            Some(i) => {
                self.entries.remove(i);
                proof {
                    lemma_kv_remove_effect(pre, self.entries@, i as int, key@);
                }
                true
            },
            None => {
                proof {
                    lemma_kv_absent_remove(pre, key@);
                }
                false
            },
        }
    }
}

/// Replacing the value at a key's position updates the map at that key.
proof fn lemma_kv_set_effect(pre: Seq<(Vec<u8>, Vec<u8>)>, post: Seq<(Vec<u8>, Vec<u8>)>, i: int)
    requires
        kv_entries_wf(pre),
        0 <= i < pre.len(),
        post.len() == pre.len(),
        post[i].0@ == pre[i].0@,
        forall|j: int| 0 <= j < pre.len() && j != i ==> post[j] == pre[j],
    ensures
        kv_entries_wf(post),
        kv_map_of(post) == kv_map_of(pre).insert(post[i].0@, post[i].1@),
    decreases pre.len(),
{
    assert forall|a: int, b: int| 0 <= a < b < post.len() implies post[a].0@ != post[b].0@ by {
        assert(pre[a].0@ != pre[b].0@);
        assert(post[a].0@ == pre[a].0@);
        assert(post[b].0@ == pre[b].0@);
    }
    if i == pre.len() - 1 {
        assert(post.drop_last() =~= pre.drop_last());
        assert(kv_map_of(post) =~= kv_map_of(pre).insert(post[i].0@, post[i].1@));
    } else {
        lemma_kv_set_effect(pre.drop_last(), post.drop_last(), i);
        assert(post.drop_last()[i] == post[i]);
        assert(post.last() == pre.last());
        assert(pre[i].0@ != pre[pre.len() - 1].0@);
        assert(kv_map_of(post) =~= kv_map_of(pre).insert(post[i].0@, post[i].1@));
    }
}

/// Removing a key's entry removes the key from the map.
proof fn lemma_kv_remove_effect(
    pre: Seq<(Vec<u8>, Vec<u8>)>,
    post: Seq<(Vec<u8>, Vec<u8>)>,
    i: int,
    k: Seq<u8>,
)
    requires
        kv_entries_wf(pre),
        0 <= i < pre.len(),
        pre[i].0@ == k,
        post == pre.remove(i),
    ensures
        kv_entries_wf(post),
        kv_map_of(post) == kv_map_of(pre).remove(k),
    decreases pre.len(),
{
    assert forall|a: int, b: int| 0 <= a < b < post.len() implies post[a].0@ != post[b].0@ by {
        let pa: int = if a < i {
            a
        } else {
            a + 1
        };
        let pb: int = if b < i {
            b
        } else {
            b + 1
        };
        assert(post[a] == pre[pa]);
        assert(post[b] == pre[pb]);
    }
    if i == pre.len() - 1 {
        assert(post =~= pre.drop_last());
        lemma_kv_absent_remove(post, k);
        assert(kv_map_of(pre.drop_last()) == kv_map_of(pre.drop_last()).remove(k));
        assert(kv_map_of(post) =~= kv_map_of(pre).remove(k));
    } else {
        assert(post.drop_last() =~= pre.drop_last().remove(i));
        lemma_kv_remove_effect(pre.drop_last(), post.drop_last(), i, k);
        assert(post.last() == pre.last());
        assert(pre[i].0@ != pre[pre.len() - 1].0@);
        assert(kv_map_of(post) =~= kv_map_of(pre).remove(k));
    }
}

/// Removing an absent key leaves the map unchanged.
proof fn lemma_kv_absent_remove(s: Seq<(Vec<u8>, Vec<u8>)>, k: Seq<u8>)
    requires
        forall|i: int| 0 <= i < s.len() ==> s[i].0@ != k,
    ensures
        kv_map_of(s) == kv_map_of(s).remove(k),
{
    lemma_kv_map_domain(s);
    assert(!kv_map_of(s).contains_key(k));
    assert(kv_map_of(s) =~= kv_map_of(s).remove(k));
}

} // verus!
