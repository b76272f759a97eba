//! The chaos decorator's decision logic: with a configured sampling rate,
//! read or write attempts fail with a synthetic error so that callers'
//! error paths get exercised. The draw is a pseudo-random function of the
//! key, so a rate of one-in-one fails every attempt.

use vstd::prelude::*;

verus! {

/// Sampling rates for injected failures: an operation fails roughly one
/// time in the configured count. `None` injects no failures of that kind;
/// a rate of zero is treated the same way.
#[derive(Clone, Copy, Debug, PartialEq, Eq, Structural)]
pub struct ChaosOptions {
    pub error_sample_read: Option<u64>,
    pub error_sample_write: Option<u64>,
}

pub open spec fn spec_key_hash(key: Seq<u8>) -> u64
    decreases key,
{
    if key.len() == 0 {
        0xcbf29ce484222325u64
    } else {
        (((spec_key_hash(key.drop_last()) ^ (key.last() as u64)) * 0x100000001b3) % 0x10000000000000000) as u64
    }
}

/// A pseudo-random draw from the key bytes (the Fowler–Noll–Vo fold).
pub fn key_hash(key: &Vec<u8>) -> (r: u64)
    ensures
        r == spec_key_hash(key@),
{
    let mut h: u64 = 0xcbf29ce484222325;
    let n = key.len();
    let mut i: usize = 0;
    while i < n
        invariant
            i <= n,
            n == key@.len(),
            h == spec_key_hash(key@.take(i as int)),
        decreases n - i,
    {
        proof {
            assert(key@.take(i + 1 as int).drop_last() =~= key@.take(i as int));
            assert(key@.take(i + 1 as int).last() == key@[i as int]);
        }
        h = (h ^ (key[i] as u64)).wrapping_mul(0x100000001b3);
        i = i + 1;
    }
    proof {
        assert(key@.take(n as int) =~= key@);
    }
    h
}

/// Whether a one-in-`sample` draw fires for this key.
pub open spec fn spec_fires(sample: Option<u64>, key: Seq<u8>) -> bool {
    match sample {
        Some(n) => n > 0 && spec_key_hash(key) % n == 0,
        None => false,
    }
}

impl ChaosOptions {
    pub fn new(error_sample_read: Option<u64>, error_sample_write: Option<u64>) -> (r:
        ChaosOptions)
        ensures
            r.error_sample_read == error_sample_read,
            r.error_sample_write == error_sample_write,
    {
        ChaosOptions { error_sample_read, error_sample_write }
    }

    /// Whether any failure injection is configured at all.
    pub open spec fn spec_has_chaos(&self) -> bool {
        self.error_sample_read is Some || self.error_sample_write is Some
    }

    pub fn has_chaos(&self) -> (r: bool)
        ensures
            r == self.spec_has_chaos(),
    {
        self.error_sample_read.is_some() || self.error_sample_write.is_some()
    }

    /// Whether a read of this key draws an injected failure.
    pub open spec fn spec_read_fires(&self, key: Seq<u8>) -> bool {
        spec_fires(self.error_sample_read, key)
    }

    /// Whether a write of this key draws an injected failure.
    pub open spec fn spec_write_fires(&self, key: Seq<u8>) -> bool {
        spec_fires(self.error_sample_write, key)
    }

    pub fn read_fires(&self, key: &Vec<u8>) -> (r: bool)
        ensures
            r == self.spec_read_fires(key@),
    {
        match self.error_sample_read {
            Some(n) => n > 0 && key_hash(key) % n == 0,
            None => false,
        }
    }

    pub fn write_fires(&self, key: &Vec<u8>) -> (r: bool)
        ensures
            r == self.spec_write_fires(key@),
    {
        match self.error_sample_write {
            Some(n) => n > 0 && key_hash(key) % n == 0,
            None => false,
        }
    }
}

} // verus!
