//! Shared mining statistics: per-thread hash counters and share counts,
//! updated concurrently by the miner threads without locks.

use std::sync::atomic::{AtomicU64, Ordering};
use std::time::Instant;
use vstd::prelude::*;

verus! {

/// `std::time::Instant`, a point in monotonic time.
#[verifier::external_type_specification]
#[verifier::external_body]
pub struct ExInstant(Instant);

/// Calls `Instant::now`; nothing is claimed of the time.
#[verifier::external_body]
fn now() -> Instant {
    Instant::now()
}

/// The sum of `v`.
pub open spec fn sum(v: Seq<u64>) -> nat
    decreases v.len(),
{
    if v.len() == 0 {
        0
    } else {
        sum(v.drop_last()) + v.last() as nat
    }
}

/// The sum of `counts` modulo 2^64.
pub fn wrapping_total(counts: &Vec<u64>) -> (r: u64)
    ensures
        r == sum(counts@) % 0x1_0000_0000_0000_0000,
{
    let mut total: u64 = 0;
    for i in 0..counts.len()
        invariant
            total == sum(counts@.take(i as int)) % 0x1_0000_0000_0000_0000,
    {
        assert(counts@.take(i + 1).drop_last() =~= counts@.take(i as int));
        proof {
            vstd::arithmetic::div_mod::lemma_add_mod_noop(
                sum(counts@.take(i as int)) as int,
                counts@[i as int] as int,
                0x1_0000_0000_0000_0000,
            );
            vstd::arithmetic::div_mod::lemma_mod_twice(
                counts@[i as int] as int,
                0x1_0000_0000_0000_0000,
            );
        }
        total = total.wrapping_add(counts[i]);
    }
    assert(counts@.take(counts@.len() as int) =~= counts@);
    total
}

/// Shared, lock-free mining statistics.
pub struct Stats {
    /// Per-thread hash counters.
    pub hash_count: Vec<AtomicU64>,
    pub accepted: AtomicU64,
    pub rejected: AtomicU64,
    pub start: Instant,
}

impl Stats {
    /// Statistics with one zeroed hash counter per thread, started now.
    pub fn new(threads: usize) -> (r: Self)
        ensures
            r.hash_count@.len() == threads,
    {
        let mut hash_count: Vec<AtomicU64> = Vec::new();
        for i in 0..threads
            invariant
                hash_count@.len() == i,
        {
            hash_count.push(AtomicU64::new(0));
        }
        Stats { hash_count, accepted: AtomicU64::new(0), rejected: AtomicU64::new(0), start: now() }
    }

    /// Called by each miner thread every batch of hashes.
    pub fn add_hashes(&self, thread_id: usize, n: u64)
        requires
            thread_id < self.hash_count@.len(),
    {
        self.hash_count[thread_id].fetch_add(n, Ordering::Relaxed);
    }

    pub fn add_accepted(&self) {
        self.accepted.fetch_add(1, Ordering::Relaxed);
    }

    pub fn add_rejected(&self) {
        self.rejected.fetch_add(1, Ordering::Relaxed);
    }

    /// Total hashes across all threads since start: the sum, modulo 2^64, of
    /// one reading of each thread's counter.
    pub fn total_hashes(&self) -> (r: u64)
        ensures
            exists|readings: Seq<u64>|
                readings.len() == self.hash_count@.len() && r == sum(readings)
                    % 0x1_0000_0000_0000_0000,
    {
        let mut readings: Vec<u64> = Vec::new();
        for i in 0..self.hash_count.len()
            invariant
                readings@.len() == i,
        {
            readings.push(self.hash_count[i].load(Ordering::Relaxed));
        }
        wrapping_total(&readings)
    }

    /// One relaxed reading of the accepted-share counter. Other threads add
    /// to it concurrently, so the value read is not fixed by anything this
    /// library can state.
    pub fn accepted_count(&self) -> u64 {
        self.accepted.load(Ordering::Relaxed)
    }

    /// One relaxed reading of the rejected-share counter. Other threads add
    /// to it concurrently, so the value read is not fixed by anything this
    /// library can state.
    pub fn rejected_count(&self) -> u64 {
        self.rejected.load(Ordering::Relaxed)
    }
}

} // verus!
