use crate::bytes::{le_value, le_words, lemma_le_value_append, lemma_le_value_word, pow256, to_le_words};
use crate::hashes::{kheavy_hash_of, pow_hash, pow_hash_of};
use crate::matrix::{
    all_rows_nonzero, generated_from, generation_ends, heavy_mix_spec, matrix_attempt, Matrix,
};
use vstd::prelude::*;

verus! {

/// A 256-bit share target as four little-endian 64-bit words, lowest first.
pub type Target = [u64; 4];

/// The number that four little-endian 64-bit words stand for.
pub open spec fn u256_value(w: Seq<u64>) -> int {
    w[0] + w[1] * 0x1_0000_0000_0000_0000int + w[2] * 0x1_0000_0000_0000_0000_0000_0000_0000_0000int
        + w[3] * 0x1_0000_0000_0000_0000_0000_0000_0000_0000_0000_0000_0000_0000int
}

/// The four little-endian words of a 32-byte string stand for the number
/// its bytes write in little-endian order.
pub proof fn lemma_le_words_value(h: Seq<u8>)
    requires
        h.len() == 32,
    ensures
        u256_value(le_words(h)) == le_value(h),
{
    let w0 = h.subrange(0, 8);
    let w1 = h.subrange(8, 16);
    let w2 = h.subrange(16, 24);
    let w3 = h.subrange(24, 32);
    assert(h =~= w0 + (w1 + (w2 + w3)));
    lemma_le_value_append(w2, w3);
    lemma_le_value_append(w1, w2 + w3);
    lemma_le_value_append(w0, w1 + (w2 + w3));
    lemma_le_value_word(h, 0);
    lemma_le_value_word(h, 8);
    lemma_le_value_word(h, 16);
    lemma_le_value_word(h, 24);
    reveal_with_fuel(pow256, 9);
    assert(pow256(8) == 0x1_0000_0000_0000_0000nat);
    let p: int = 0x1_0000_0000_0000_0000;
    let a = le_value(w0) as int;
    let b = le_value(w1) as int;
    let c = le_value(w2) as int;
    let d = le_value(w3) as int;
    assert(le_value(w2 + w3) == c + p * d);
    assert(le_value(w1 + (w2 + w3)) == b + p * (c + p * d));
    assert(le_value(h) == a + p * (b + p * (c + p * d)));
    assert(a + p * (b + p * (c + p * d)) == a + b * p + c * (p * p) + d * (p * p * p)) by (nonlinear_arith);
    assert(p * p == 0x1_0000_0000_0000_0000_0000_0000_0000_0000int);
    assert(p * p * p == 0x1_0000_0000_0000_0000_0000_0000_0000_0000_0000_0000_0000_0000int);
}

/// Whether a 32-byte hash, read as a little-endian 256-bit number, is at
/// most the target.
pub open spec fn meets_target_spec(hash: Seq<u8>, target: Seq<u64>) -> bool {
    u256_value(le_words(hash)) <= u256_value(target)
}

/// The proof-of-work state of one job: the header's pre_pow_hash and its
/// timestamp, from which the Keccak pre-hash of each nonce is computed.
#[derive(Clone, Copy)]
pub struct PowHasher {
    pub pre_pow_hash: [u8; 32],
    pub timestamp: u64,
}

/// The kHeavyHash proof-of-work value of `nonce` for a job.
pub open spec fn pow_value(hasher: PowHasher, m: Seq<Seq<u16>>, nonce: u64) -> Seq<u8> {
    kheavy_hash_of(heavy_mix_spec(m, pow_hash_of(hasher.pre_pow_hash@, hasher.timestamp, nonce)))
}

/// The proof-of-work value of a nonce is the matrix hash of the Keccak
/// pre-hash of the header with that same, full 64-bit nonce.
pub proof fn lemma_pow_value_uses_full_nonce(job: PowHasher, mat: Seq<Seq<u16>>, x: u64)
    ensures
        pow_value(job, mat, x) == kheavy_hash_of(
            heavy_mix_spec(mat, pow_hash_of(job.pre_pow_hash@, job.timestamp, x)),
        ),
{
}

impl PowHasher {
    pub fn new(pre_pow_hash: [u8; 32], timestamp: u64) -> (r: Self)
        ensures
            r.pre_pow_hash == pre_pow_hash,
            r.timestamp == timestamp,
    {
        PowHasher { pre_pow_hash, timestamp }
    }

    /// The proof-of-work pre-hash of `nonce` for this header and timestamp.
    pub fn finalize_with_nonce(&self, nonce: u64) -> (r: [u8; 32])
        ensures
            r@ == pow_hash_of(self.pre_pow_hash@, self.timestamp, nonce),
    {
        pow_hash(self.pre_pow_hash, self.timestamp, nonce)
    }
}

/// Full Kaspa PoW calculation for one nonce candidate.
pub fn compute(hasher: &PowHasher, matrix: &Matrix, nonce: u64) -> (r: [u8; 32])
    ensures
        r@ == pow_value(*hasher, matrix@, nonce),
{
    let hash = hasher.finalize_with_nonce(nonce);
    matrix.heavy_hash(&hash)
}

/// Returns true when little-endian `hash` as u256 is <= little-endian `target`.
pub fn meets_target(hash: &[u8; 32], target: &Target) -> (r: bool)
    ensures
        r == meets_target_spec(hash@, target@),
        r == (le_value(hash@) <= u256_value(target@)),
{
    proof {
        lemma_le_words_value(hash@);
    }
    let pow = to_le_words(hash);
    let ghost a = pow@;
    let ghost b = target@;
    let mut i: usize = 4;
    while i > 0
        invariant
            i <= 4,
            a == pow@,
            a == le_words(hash@),
            b == target@,
            u256_value(le_words(hash@)) == le_value(hash@),
            forall|k: int| i <= k < 4 ==> a[k] == b[k],
        decreases i,
    {
        i = i - 1;
        if pow[i] < target[i] {
            return true;
        } else if pow[i] > target[i] {
            return false;
        }
    }
    true
}

/// Pre-built mining state for a single job.
pub struct JobContext {
    pub target: Target,
    pub matrix: Matrix,
    pub hasher: PowHasher,
}

/// A nonce with the pool's prefix: the miner's bits under `mask`, the
/// fixed bits elsewhere.
pub open spec fn prefixed_nonce(fixed: u64, mask: u64, n: u64) -> u64 {
    (n & mask) | fixed
}

/// The nonces tried by one batch whose counter starts after `start`: the
/// counters start + 1, ..., start + n, wrapping at 2^64, each carrying the
/// pool's prefix.
pub open spec fn batch_nonces(start: u64, n: nat, fixed: u64, mask: u64) -> Seq<u64> {
    Seq::new(
        n,
        |k: int| prefixed_nonce(fixed, mask, ((start + k + 1) % 0x1_0000_0000_0000_0000) as u64),
    )
}

impl JobContext {
    /// Whether `nonce` solves this job.
    pub open spec fn solves(self, nonce: u64) -> bool {
        meets_target_spec(pow_value(self.hasher, self.matrix@, nonce), self.target@)
    }

    /// Builds the job's matrix from `pre_pow_hash` and keeps the header and
    /// timestamp for hashing.
    pub fn new(pre_pow_hash: [u8; 32], timestamp: u64, target: Target) -> (r: Self)
        requires
            generation_ends(pre_pow_hash@),
        ensures
            r.target == target,
            r.hasher.pre_pow_hash == pre_pow_hash,
            r.hasher.timestamp == timestamp,
            generated_from(pre_pow_hash@, r.matrix@),
    {
        let matrix = Matrix::generate(&pre_pow_hash);
        let hasher = PowHasher::new(pre_pow_hash, timestamp);
        JobContext { target, matrix, hasher }
    }

    /// `new` with matrix generation cut off after `attempts` attempts:
    /// `None` when each of them has an all-zero row.
    pub fn try_new(pre_pow_hash: [u8; 32], timestamp: u64, target: Target, attempts: u64) -> (r:
        Option<Self>)
        ensures
            r matches Some(c) ==> {
                &&& c.target == target
                &&& c.hasher.pre_pow_hash == pre_pow_hash
                &&& c.hasher.timestamp == timestamp
                &&& generated_from(pre_pow_hash@, c.matrix@)
            },
            r is None ==> forall|k: nat| k < attempts ==> !all_rows_nonzero(
                #[trigger] matrix_attempt(pre_pow_hash@, k),
            ),
    {
        match Matrix::generate_within(&pre_pow_hash, attempts) {
            Some(matrix) => {
                let hasher = PowHasher::new(pre_pow_hash, timestamp);
                Some(JobContext { target, matrix, hasher })
            },
            None => None,
        }
    }

    /// Try a single nonce. Returns Some(nonce) on success.
    pub fn try_nonce(&self, nonce: u64) -> (r: Option<u64>)
        ensures
            r == (if self.solves(nonce) {
                Some(nonce)
            } else {
                None
            }),
    {
        let hash = compute(&self.hasher, &self.matrix, nonce);
        if meets_target(&hash, &self.target) {
            Some(nonce)
        } else {
            None
        }
    }

    /// Advances the nonce counter `n` times from `start` and tries each
    /// counter value with the pool's prefix applied (`fixed` bits kept,
    /// the miner's bits under `mask`); returns the last counter value and
    /// the nonces, in order, that solve the job.
    pub fn mine_batch(&self, start: u64, n: u64, fixed: u64, mask: u64) -> (r: (u64, Vec<u64>))
        ensures
            r.0 == ((start + n) % 0x1_0000_0000_0000_0000) as u64,
            r.1@ == batch_nonces(start, n as nat, fixed, mask).filter(|x: u64| self.solves(x)),
    {
        let mut counter = start;
        let mut found: Vec<u64> = Vec::new();
        let ghost all = batch_nonces(start, n as nat, fixed, mask);
        let mut i: u64 = 0;
        while i < n
            invariant
                i <= n,
                all == batch_nonces(start, n as nat, fixed, mask),
                counter == ((start + i) % 0x1_0000_0000_0000_0000) as u64,
                found@ == all.take(i as int).filter(|x: u64| self.solves(x)),
            decreases n - i,
        {
            counter = counter.wrapping_add(1);
            let nonce = (counter & mask) | fixed;
            assert(nonce == all[i as int]);
            if let Some(hit) = self.try_nonce(nonce) {
                found.push(hit);
            }
            proof {
                reveal_with_fuel(Seq::<_>::filter, 1);
                assert(all.take(i + 1).drop_last() =~= all.take(i as int));
            }
            i = i + 1;
        }
        assert(all.take(n as int) =~= all);
        (counter, found)
    }
}

} // verus!
