//! The write-ahead log: intent entries recorded before replication, their
//! binary layout, and the queue the multiplexer appends to and deletes
//! from. The queue's persistent storage engine is an external
//! collaborator; this module holds the entries it would persist.

use vstd::prelude::*;
use crate::kv::bytes_eq;

verus! {

/// One write intent: a put of `blob_size` bytes under `key`, issued by the
/// multiplex named `multiplex_id` at `timestamp`. Appended before the
/// replicated write attempts and deleted only when every replica of that
/// write has been observed to succeed.
pub struct WalEntry {
    pub key: Vec<u8>,
    pub multiplex_id: u32,
    pub timestamp: i64,
    pub blob_size: u64,
}

/// Mathematical view of `WalEntry`.
pub struct WalEntryView {
    pub key: Seq<u8>,
    pub multiplex_id: u32,
    pub timestamp: i64,
    pub blob_size: u64,
}

impl View for WalEntry {
    type V = WalEntryView;

    open spec fn view(&self) -> WalEntryView {
        WalEntryView {
            key: self.key@,
            multiplex_id: self.multiplex_id,
            timestamp: self.timestamp,
            blob_size: self.blob_size,
        }
    }
}

impl WalEntry {
    pub fn new(key: Vec<u8>, multiplex_id: u32, timestamp: i64, blob_size: u64) -> (r: WalEntry)
        ensures
            r@ == (WalEntryView { key: key@, multiplex_id, timestamp, blob_size }),
    {
        WalEntry { key, multiplex_id, timestamp, blob_size }
    }
}

/// The four bytes of a 32-bit value, least significant first.
pub open spec fn le32_bytes(x: u32) -> Seq<u8> {
    seq![
        (x & 0xff) as u8,
        ((x >> 8) & 0xff) as u8,
        ((x >> 16) & 0xff) as u8,
        ((x >> 24) & 0xff) as u8,
    ]
}

/// The eight bytes of a 64-bit value, least significant first.
pub open spec fn le64_bytes(x: u64) -> Seq<u8> {
    seq![
        (x & 0xff) as u8,
        ((x >> 8) & 0xff) as u8,
        ((x >> 16) & 0xff) as u8,
        ((x >> 24) & 0xff) as u8,
        ((x >> 32) & 0xff) as u8,
        ((x >> 40) & 0xff) as u8,
        ((x >> 48) & 0xff) as u8,
        ((x >> 56) & 0xff) as u8,
    ]
}

/// The 32-bit value four little-endian bytes spell.
pub open spec fn le32_value(s: Seq<u8>) -> u32
    recommends
        s.len() == 4,
{
    (s[0] as u32) | ((s[1] as u32) << 8) | ((s[2] as u32) << 16) | ((s[3] as u32) << 24)
}

/// The 64-bit value eight little-endian bytes spell.
pub open spec fn le64_value(s: Seq<u8>) -> u64
    recommends
        s.len() == 8,
{
    (s[0] as u64) | ((s[1] as u64) << 8) | ((s[2] as u64) << 16) | ((s[3] as u64) << 24) | (
    (s[4] as u64) << 32) | ((s[5] as u64) << 40) | ((s[6] as u64) << 48) | ((s[7] as u64) << 56)
}

pub proof fn lemma_le32_roundtrip(x: u32)
    ensures
        le32_value(le32_bytes(x)) == x,
{
    assert((((x & 0xff) as u8) as u32) | ((((x >> 8) & 0xff) as u8) as u32) << 8 | ((((x >> 16)
        & 0xff) as u8) as u32) << 16 | ((((x >> 24) & 0xff) as u8) as u32) << 24 == x)
        by (bit_vector);
}

pub proof fn lemma_le64_roundtrip(x: u64)
    ensures
        le64_value(le64_bytes(x)) == x,
{
    assert((((x & 0xff) as u8) as u64) | ((((x >> 8) & 0xff) as u8) as u64) << 8 | ((((x >> 16)
        & 0xff) as u8) as u64) << 16 | ((((x >> 24) & 0xff) as u8) as u64) << 24 | ((((x >> 32)
        & 0xff) as u8) as u64) << 32 | ((((x >> 40) & 0xff) as u8) as u64) << 40 | ((((x >> 48)
        & 0xff) as u8) as u64) << 48 | ((((x >> 56) & 0xff) as u8) as u64) << 56 == x)
        by (bit_vector);
}

/// The persisted layout of a write intent: the multiplex id, the
/// length-prefixed key, the timestamp (two's complement), and the blob
/// size, each little-endian.
pub open spec fn wal_entry_bytes(e: WalEntryView) -> Seq<u8> {
    le32_bytes(e.multiplex_id) + le64_bytes(e.key.len() as u64) + e.key + le64_bytes(
        e.timestamp as u64,
    ) + le64_bytes(e.blob_size)
}

/// What a byte string spells as a write intent, if anything: the layout
/// above with the key length prefix agreeing with the total length.
pub open spec fn spec_decode_wal_entry(b: Seq<u8>) -> Option<WalEntryView> {
    if b.len() < 28 {
        None
    } else {
        let klen = le64_value(b.subrange(4, 12));
        if b.len() - 28 == klen {
            let k: int = klen as int;
            Some(
                WalEntryView {
                    multiplex_id: le32_value(b.subrange(0, 4)),
                    key: b.subrange(12, 12 + k),
                    timestamp: le64_value(b.subrange(12 + k, 20 + k)) as i64,
                    blob_size: le64_value(b.subrange(20 + k, 28 + k)),
                },
            )
        } else {
            None
        }
    }
}

/// Append the four little-endian bytes of `x`.
fn push_le32(out: &mut Vec<u8>, x: u32)
    ensures
        final(out)@ == old(out)@ + le32_bytes(x),
{
    out.push((x & 0xff) as u8);
    out.push(((x >> 8) & 0xff) as u8);
    out.push(((x >> 16) & 0xff) as u8);
    out.push(((x >> 24) & 0xff) as u8);
    proof {
        assert(out@ =~= old(out)@ + le32_bytes(x));
    }
}

/// Append the eight little-endian bytes of `x`.
fn push_le64(out: &mut Vec<u8>, x: u64)
    ensures
        final(out)@ == old(out)@ + le64_bytes(x),
{
    out.push((x & 0xff) as u8);
    out.push(((x >> 8) & 0xff) as u8);
    out.push(((x >> 16) & 0xff) as u8);
    out.push(((x >> 24) & 0xff) as u8);
    out.push(((x >> 32) & 0xff) as u8);
    out.push(((x >> 40) & 0xff) as u8);
    out.push(((x >> 48) & 0xff) as u8);
    out.push(((x >> 56) & 0xff) as u8);
    proof {
        assert(out@ =~= old(out)@ + le64_bytes(x));
    }
}

/// Serialize a write intent into its persisted layout.
pub fn encode_wal_entry(e: &WalEntry) -> (r: Vec<u8>)
    ensures
        r@ == wal_entry_bytes(e@),
{
    let mut out: Vec<u8> = Vec::new();
    push_le32(&mut out, e.multiplex_id);
    push_le64(&mut out, e.key.len() as u64);
    let mut i: usize = 0;
    let n = e.key.len();
    while i < n
        invariant
            i <= n,
            n == e.key@.len(),
            out@ == le32_bytes(e@.multiplex_id) + le64_bytes(e@.key.len() as u64) + e.key@.take(
                i as int,
            ),
        decreases n - i,
    {
        out.push(e.key[i]);
        proof {
            assert(out@ =~= le32_bytes(e@.multiplex_id) + le64_bytes(e@.key.len() as u64)
                + e.key@.take(i + 1 as int));
        }
        i = i + 1;
    }
    proof {
        assert(e.key@.take(n as int) =~= e.key@);
    }
    push_le64(&mut out, e.timestamp as u64);
    push_le64(&mut out, e.blob_size);
    proof {
        assert(out@ =~= wal_entry_bytes(e@));
    }
    out
}

/// Why a byte string was rejected as a write intent.
#[derive(Clone, Copy, Debug, PartialEq, Eq, Structural)]
pub enum WalDecodeError {
    /// Fewer bytes than the fixed fields alone need.
    Truncated,
    /// The key length prefix disagrees with the total length.
    LengthMismatch,
}

/// Read the 64-bit value at `at`, little-endian.
fn read_le64(b: &Vec<u8>, at: usize) -> (r: u64)
    requires
        at + 8 <= b@.len(),
    ensures
        r == le64_value(b@.subrange(at as int, at + 8)),
{
    let n = b.len();
    let r = (b[at] as u64) | ((b[at + 1] as u64) << 8u64) | ((b[at + 2] as u64) << 16u64) | ((b[at
        + 3] as u64) << 24u64) | ((b[at + 4] as u64) << 32u64) | ((b[at + 5] as u64) << 40u64) | ((
    b[at + 6] as u64) << 48u64) | ((b[at + 7] as u64) << 56u64);
    proof {
        let s = b@.subrange(at as int, at + 8);
        assert(s[0] == b@[at as int]);
        assert(s[1] == b@[at + 1]);
        assert(s[2] == b@[at + 2]);
        assert(s[3] == b@[at + 3]);
        assert(s[4] == b@[at + 4]);
        assert(s[5] == b@[at + 5]);
        assert(s[6] == b@[at + 6]);
        assert(s[7] == b@[at + 7]);
    }
    r
}

/// Parse a write intent from its persisted layout. Succeeds exactly on
/// byte strings of that layout.
pub fn decode_wal_entry(b: &Vec<u8>) -> (r: Result<WalEntry, WalDecodeError>)
    ensures
        match r {
            Ok(e) => spec_decode_wal_entry(b@) == Some(e@) && b@ == wal_entry_bytes(e@),
            Err(WalDecodeError::Truncated) => b@.len() < 28 && spec_decode_wal_entry(b@) is None,
            Err(WalDecodeError::LengthMismatch) => b@.len() >= 28 && spec_decode_wal_entry(b@)
                is None,
        },
{
    if b.len() < 28 {
        return Err(WalDecodeError::Truncated);
    }
    let multiplex_id = {
        let r = (b[0] as u32) | ((b[1] as u32) << 8u32) | ((b[2] as u32) << 16u32) | ((b[3]
            as u32) << 24u32);
        proof {
            let s = b@.subrange(0, 4);
            assert(s[0] == b@[0]);
            assert(s[1] == b@[1]);
            assert(s[2] == b@[2]);
            assert(s[3] == b@[3]);
        }
        r
    };
    let klen = read_le64(b, 4);
    let rest = b.len() - 28;
    if (rest as u64) != klen {
        return Err(WalDecodeError::LengthMismatch);
    }
    let k = rest;
    let mut key: Vec<u8> = Vec::new();
    let mut i: usize = 0;
    while i < k
        invariant
            i <= k,
            k + 28 == b@.len(),
            k + 28 <= usize::MAX,
            key@ == b@.subrange(12, 12 + i as int),
        decreases k - i,
    {
        key.push(b[12 + i]);
        proof {
            assert(key@ =~= b@.subrange(12, 12 + (i + 1)));
        }
        i = i + 1;
    }
    let timestamp = read_le64(b, 12 + k) as i64;
    let blob_size = read_le64(b, 20 + k);
    let e = WalEntry { key, multiplex_id, timestamp, blob_size };
    proof {
        let d = spec_decode_wal_entry(b@);
        assert(b@.subrange(4, 12) =~= b@.subrange(4, 12));
        assert(d == Some(e@));
        lemma_wal_entry_bytes_of_decode(b@, e@);
    }
    Ok(e)
}

/// A byte string its own decode describes is exactly that entry's layout.
proof fn lemma_wal_entry_bytes_of_decode(b: Seq<u8>, e: WalEntryView)
    requires
        spec_decode_wal_entry(b) == Some(e),
    ensures
        b == wal_entry_bytes(e),
{
    let klen = le64_value(b.subrange(4, 12));
    let k: int = klen as int;
    lemma_le_bytes_of_value(b.subrange(0, 4), b.subrange(4, 12));
    lemma_le64_bytes_of_value(b.subrange(12 + k, 20 + k));
    lemma_le64_bytes_of_value(b.subrange(20 + k, 28 + k));
    assert(e.key.len() == k);
    let t = le64_value(b.subrange(12 + k, 20 + k));
    assert(((t as i64) as u64) == t) by (bit_vector);
    assert(b =~= wal_entry_bytes(e));
}

/// Four little-endian bytes are the layout of the value they spell; same
/// for the eight-byte length prefix.
proof fn lemma_le_bytes_of_value(s4: Seq<u8>, s8: Seq<u8>)
    requires
        s4.len() == 4,
        s8.len() == 8,
    ensures
        le32_bytes(le32_value(s4)) == s4,
        le64_bytes(le64_value(s8)) == s8,
{
    lemma_le32_bytes_of_value(s4);
    lemma_le64_bytes_of_value(s8);
}

proof fn lemma_le32_bytes_of_value(s: Seq<u8>)
    requires
        s.len() == 4,
    ensures
        le32_bytes(le32_value(s)) == s,
{
    let b0 = s[0];
    let b1 = s[1];
    let b2 = s[2];
    let b3 = s[3];
    let x = le32_value(s);
    assert({
        let y = (b0 as u32) | ((b1 as u32) << 8) | ((b2 as u32) << 16) | ((b3 as u32) << 24);
        (y & 0xff) as u8 == b0 && ((y >> 8) & 0xff) as u8 == b1 && ((y >> 16) & 0xff) as u8 == b2
            && ((y >> 24) & 0xff) as u8 == b3
    }) by (bit_vector);
    assert(le32_bytes(x) =~= s);
}

proof fn lemma_le64_bytes_of_value(s: Seq<u8>)
    requires
        s.len() == 8,
    ensures
        le64_bytes(le64_value(s)) == s,
{
    let b0 = s[0];
    let b1 = s[1];
    let b2 = s[2];
    let b3 = s[3];
    let b4 = s[4];
    let b5 = s[5];
    let b6 = s[6];
    let b7 = s[7];
    let x = le64_value(s);
    assert({
        let y = (b0 as u64) | ((b1 as u64) << 8) | ((b2 as u64) << 16) | ((b3 as u64) << 24) | ((
        b4 as u64) << 32) | ((b5 as u64) << 40) | ((b6 as u64) << 48) | ((b7 as u64) << 56);
        (y & 0xff) as u8 == b0 && ((y >> 8) & 0xff) as u8 == b1 && ((y >> 16) & 0xff) as u8 == b2
            && ((y >> 24) & 0xff) as u8 == b3 && ((y >> 32) & 0xff) as u8 == b4 && ((y >> 40)
            & 0xff) as u8 == b5 && ((y >> 48) & 0xff) as u8 == b6 && ((y >> 56) & 0xff) as u8 == b7
    }) by (bit_vector);
    assert(le64_bytes(x) =~= s);
}

/// Serializing any entry and parsing it back yields the entry.
pub proof fn lemma_wal_entry_roundtrip(e: WalEntryView)
    requires
        e.key.len() <= u64::MAX,
    ensures
        spec_decode_wal_entry(wal_entry_bytes(e)) == Some(e),
{
    let b = wal_entry_bytes(e);
    let k: int = e.key.len() as int;
    assert(b.len() == 28 + k);
    assert(b.subrange(0, 4) =~= le32_bytes(e.multiplex_id));
    assert(b.subrange(4, 12) =~= le64_bytes(e.key.len() as u64));
    lemma_le32_roundtrip(e.multiplex_id);
    lemma_le64_roundtrip(e.key.len() as u64);
    assert(b.subrange(12, 12 + k) =~= e.key);
    assert(b.subrange(12 + k, 20 + k) =~= le64_bytes(e.timestamp as u64));
    assert(b.subrange(20 + k, 28 + k) =~= le64_bytes(e.blob_size));
    lemma_le64_roundtrip(e.timestamp as u64);
    lemma_le64_roundtrip(e.blob_size);
    let t = e.timestamp;
    assert(((t as u64) as i64) == t) by (bit_vector);
    let d = spec_decode_wal_entry(b);
    assert(d matches Some(v) && v =~= e);
}

/// Why the queue refused an append.
#[derive(Clone, Copy, Debug, PartialEq, Eq, Structural)]
pub enum WalError {
    /// The queue's storage did not acknowledge the append.
    AppendRefused,
}

/// The queue of write intents. The multiplexer appends before replicating
/// and deletes once replication is known complete; the healer reads what
/// remains. `fail_appends` stands for the collaborator's storage refusing
/// writes.
pub struct Wal {
    pub entries: Vec<WalEntry>,
    pub fail_appends: bool,
}

/// Mathematical view of `Wal`.
pub struct WalView {
    pub entries: Seq<WalEntryView>,
    pub fail_appends: bool,
}

pub open spec fn wal_entries_view(s: Seq<WalEntry>) -> Seq<WalEntryView> {
    s.map_values(|e: WalEntry| e@)
}

impl View for Wal {
    type V = WalView;

    open spec fn view(&self) -> WalView {
        WalView { entries: wal_entries_view(self.entries@), fail_appends: self.fail_appends }
    }
}

/// Equality of entries, decided field by field.
pub fn wal_entry_eq(a: &WalEntry, b: &WalEntry) -> (r: bool)
    ensures
        r == (a@ == b@),
{
    let r = bytes_eq(&a.key, &b.key) && a.multiplex_id == b.multiplex_id && a.timestamp
        == b.timestamp && a.blob_size == b.blob_size;
    proof {
        if r {
            assert(a@ =~= b@);
        }
    }
    r
}

/// The entries left when every entry equal to `v` is removed.
pub open spec fn wal_entries_without(s: Seq<WalEntryView>, v: WalEntryView) -> Seq<WalEntryView>
    decreases s,
{
    if s.len() == 0 {
        Seq::empty()
    } else {
        let rest = wal_entries_without(s.drop_last(), v);
        if s.last() == v {
            rest
        } else {
            rest.push(s.last())
        }
    }
}

/// Removing an entry no position holds changes nothing.
pub proof fn lemma_wal_entries_without_absent(s: Seq<WalEntryView>, v: WalEntryView)
    requires
        forall|i: int| 0 <= i < s.len() ==> s[i] != v,
    ensures
        wal_entries_without(s, v) == s,
    decreases s,
{
    if s.len() > 0 {
        lemma_wal_entries_without_absent(s.drop_last(), v);
        assert(wal_entries_without(s, v) =~= s);
    }
}

impl Wal {
    /// An empty, accepting queue.
    pub fn new() -> (r: Wal)
        ensures
            r@.entries == Seq::<WalEntryView>::empty(),
            !r@.fail_appends,
    {
        let r = Wal { entries: Vec::new(), fail_appends: false };
        proof {
            assert(r@.entries =~= Seq::<WalEntryView>::empty());
        }
        r
    }

    /// Durable append. An appended entry becomes visible to readers when
    /// `log` returns and remains visible until `delete_by_key`.
    pub fn log(&mut self, e: WalEntry) -> (r: Result<(), WalError>)
        ensures
            final(self)@.fail_appends == old(self)@.fail_appends,
            match r {
                Ok(()) => !old(self)@.fail_appends && final(self)@.entries == old(
                    self,
                )@.entries.push(e@),
                Err(WalError::AppendRefused) => old(self)@.fail_appends && final(self)@ == old(
                    self,
                )@,
            },
    {
        if self.fail_appends {
            return Err(WalError::AppendRefused);
        }
        self.entries.push(e);
        proof {
            assert(self@.entries =~= old(self)@.entries.push(e@));
        }
        Ok(())
    }

    /// Best-effort removal once replication is known complete: every entry
    /// equal to `e` leaves the queue.
    pub fn delete_by_key(&mut self, e: &WalEntry)
        ensures
            final(self)@.fail_appends == old(self)@.fail_appends,
            final(self)@.entries == wal_entries_without(old(self)@.entries, e@),
    {
        let ghost orig = self.entries@;
        let mut kept: Vec<WalEntry> = Vec::new();
        let n = self.entries.len();
        let mut i: usize = 0;
        while i < n
            invariant
                i <= n,
                n == self.entries@.len(),
                self.entries@ == orig,
                kept@.map_values(|x: WalEntry| x@) == wal_entries_without(
                    wal_entries_view(orig.take(i as int)),
                    e@,
                ),
            decreases n - i,
        {
            proof {
                assert(wal_entries_view(orig.take(i + 1)).drop_last() =~= wal_entries_view(
                    orig.take(i as int),
                ));
                assert(wal_entries_view(orig.take(i + 1)).last() == orig[i as int]@);
            }
            let keep = !wal_entry_eq(&self.entries[i], e);
            if keep {
                let cur = &self.entries[i];
                let mut copy_key: Vec<u8> = crate::kv::clone_bytes(&cur.key);
                let copy = WalEntry {
                    key: copy_key,
                    multiplex_id: cur.multiplex_id,
                    timestamp: cur.timestamp,
                    blob_size: cur.blob_size,
                };
                proof {
                    assert(copy@ =~= orig[i as int]@);
                }
                kept.push(copy);
                proof {
                    assert(kept@.map_values(|x: WalEntry| x@) =~= wal_entries_without(
                        wal_entries_view(orig.take(i + 1)),
                        e@,
                    ));
                }
            }
            i = i + 1;
        }
        proof {
            assert(orig.take(n as int) =~= orig);
        }
        self.entries = kept;
    }

    /// Whether any entry records an intent for this key by this multiplex.
    pub fn has_entry_for(&self, multiplex_id: u32, key: &Vec<u8>) -> (r: bool)
        ensures
            r == exists|i: int|
                0 <= i < self@.entries.len() && #[trigger] self@.entries[i].key == key@
                    && self@.entries[i].multiplex_id == multiplex_id,
    {
        let n = self.entries.len();
        let mut i: usize = 0;
        while i < n
            invariant
                i <= n,
                n == self@.entries.len(),
                forall|j: int|
                    0 <= j < i ==> !(#[trigger] self@.entries[j].key == key@
                        && self@.entries[j].multiplex_id == multiplex_id),
            decreases n - i,
        {
            if self.entries[i].multiplex_id == multiplex_id && bytes_eq(&self.entries[i].key, key) {
                proof {
                    assert(self@.entries[i as int].key == key@);
                }
                return true;
            }
            i = i + 1;
        }
        false
    }

    /// How many entries the queue holds.
    pub fn len(&self) -> (r: usize)
        ensures
            r == self@.entries.len(),
    {
        self.entries.len()
    }

    /// The healer's read: the entries one multiplex appended before the
    /// given bound, in queue order.
    pub fn read_next_batch(&self, multiplex_id: u32, older_than: i64) -> (r: Vec<WalEntry>)
        ensures
            wal_entries_view(r@) == wal_batch(self@.entries, multiplex_id, older_than),
    {
        let ghost es = self@.entries;
        let mut out: Vec<WalEntry> = Vec::new();
        let n = self.entries.len();
        let mut i: usize = 0;
        proof {
            assert(wal_entries_view(out@) =~= wal_batch(es.take(0), multiplex_id, older_than));
        }
        while i < n
            invariant
                i <= n,
                n == es.len(),
                self@.entries == es,
                wal_entries_view(out@) == wal_batch(es.take(i as int), multiplex_id, older_than),
            decreases n - i,
        {
            proof {
                assert(es.take(i + 1).drop_last() =~= es.take(i as int));
                assert(es.take(i + 1).last() == es[i as int]);
                assert(es[i as int] == self.entries@[i as int]@);
            }
            let e = &self.entries[i];
            if e.multiplex_id == multiplex_id && e.timestamp < older_than {
                let ghost pre = out@;
                let copy = WalEntry {
                    key: crate::kv::clone_bytes(&e.key),
                    multiplex_id: e.multiplex_id,
                    timestamp: e.timestamp,
                    blob_size: e.blob_size,
                };
                out.push(copy);
                proof {
                    assert(out@.drop_last() =~= pre);
                    assert(out@.last()@ =~= es[i as int]);
                    assert(wal_entries_view(out@) =~= wal_entries_view(pre).push(es[i as int]));
                }
            }
            i = i + 1;
        }
        proof {
            assert(es.take(n as int) =~= es);
        }
        out
    }
}

/// The entries of one multiplex older than a bound, in queue order.
pub open spec fn wal_batch(s: Seq<WalEntryView>, multiplex_id: u32, older_than: i64) -> Seq<
    WalEntryView,
>
    decreases s,
{
    if s.len() == 0 {
        Seq::empty()
    } else {
        let rest = wal_batch(s.drop_last(), multiplex_id, older_than);
        if s.last().multiplex_id == multiplex_id && s.last().timestamp < older_than {
            rest.push(s.last())
        } else {
            rest
        }
    }
}

} // verus!
