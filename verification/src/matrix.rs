use crate::hashes::{kheavy_hash, kheavy_hash_of};
use crate::xoshiro::{output_at, seed_state, state_after, XoShiRo256PlusPlus};
use vstd::arithmetic::div_mod::lemma_add_mod_noop;
use vstd::prelude::*;

verus! {

/// Side length of the mining matrix.
pub const N: usize = 64;

/// The exact (unwrapped) dot product of the first `n` entries of `row` and `v`.
pub open spec fn dot(row: Seq<u16>, v: Seq<u16>, n: nat) -> int
    decreases n,
{
    if n == 0 {
        0
    } else {
        dot(row, v, (n - 1) as nat) + row[n - 1] * v[n - 1]
    }
}

/// Bits [13:10] of a dot product taken modulo 2^16.
pub open spec fn high_nibble_of_sum(sum: int) -> u16 {
    (sum % 0x1_0000 / 0x400 % 0x10) as u16
}

/// `m` is the matrix that generation from `seed` gives: the first attempt
/// whose rows all hold a non-zero entry.
pub open spec fn generated_from(seed: Seq<u8>, m: Seq<Seq<u16>>) -> bool {
    exists|k: nat|
        {
            &&& m == matrix_attempt(seed, k)
            &&& all_rows_nonzero(m)
            &&& forall|k2: nat| k2 < k ==> !all_rows_nonzero(#[trigger] matrix_attempt(seed, k2))
        }
}

/// The matrix of a job is a function of its seed: two generations from one
/// seed give the same matrix.
pub proof fn lemma_generation_deterministic(seed: Seq<u8>, m1: Seq<Seq<u16>>, m2: Seq<Seq<u16>>)
    requires
        generated_from(seed, m1),
        generated_from(seed, m2),
    ensures
        m1 == m2,
{
    let k1 = choose|k: nat|
        {
            &&& m1 == matrix_attempt(seed, k)
            &&& all_rows_nonzero(m1)
            &&& forall|k2: nat| k2 < k ==> !all_rows_nonzero(#[trigger] matrix_attempt(seed, k2))
        };
    let k2 = choose|k: nat|
        {
            &&& m2 == matrix_attempt(seed, k)
            &&& all_rows_nonzero(m2)
            &&& forall|k3: nat| k3 < k ==> !all_rows_nonzero(#[trigger] matrix_attempt(seed, k3))
        };
    if k1 < k2 {
        assert(!all_rows_nonzero(matrix_attempt(seed, k1)));
    } else if k2 < k1 {
        assert(!all_rows_nonzero(matrix_attempt(seed, k2)));
    }
}

/// The matrix-vector product as the miner computes it: for each row, bits
/// [13:10] of the row's dot product with `v` in wrapping 16-bit arithmetic.
pub open spec fn product_spec(m: Seq<Seq<u16>>, v: Seq<u16>) -> Seq<u16> {
    Seq::new(N as nat, |i: int| high_nibble_of_sum(dot(m[i], v, N as nat)))
}

/// The low 16 bits of a generator output.
pub open spec fn low16(x: u64) -> u16 {
    (x & 0xFFFF) as u16
}

/// The matrix filled by the `k`-th generation attempt from `seed` (counting
/// from 0): cell (i, j) is the low 16 bits of output number 4096k + 64i + j.
pub open spec fn matrix_attempt(seed: Seq<u8>, k: nat) -> Seq<Seq<u16>> {
    Seq::new(
        N as nat,
        |i: int|
            Seq::new(
                N as nat,
                |j: int| low16(output_at(seed_state(seed), (4096 * k + 64 * i + j) as nat)),
            ),
    )
}

/// `r` holds a non-zero entry.
pub open spec fn row_nonzero(r: Seq<u16>) -> bool {
    exists|j: int| 0 <= j < r.len() && #[trigger] r[j] != 0
}

/// Every row of `m` holds a non-zero entry.
pub open spec fn all_rows_nonzero(m: Seq<Seq<u16>>) -> bool {
    forall|i: int| 0 <= i < m.len() ==> row_nonzero(#[trigger] m[i])
}

/// Some generation attempt from `seed` yields a matrix with no all-zero row,
/// so that `Matrix::generate` returns.
pub open spec fn generation_ends(seed: Seq<u8>) -> bool {
    exists|k: nat| all_rows_nonzero(#[trigger] matrix_attempt(seed, k))
}

/// The 64 nibbles of a 32-byte hash, high nibble of each byte first.
pub open spec fn hash_nibbles(h: Seq<u8>) -> Seq<u16> {
    Seq::new(
        N as nat,
        |j: int|
            if j % 2 == 0 {
                (h[j / 2] / 16) as u16
            } else {
                (h[j / 2] % 16) as u16
            },
    )
}

/// The matrix step of kHeavyHash: the product of `m` with the nibbles of `h`,
/// packed two nibbles to a byte and xored with `h`.
pub open spec fn heavy_mix_spec(m: Seq<Seq<u16>>, h: Seq<u8>) -> Seq<u8> {
    let p = product_spec(m, hash_nibbles(h));
    Seq::new(32, |k: int| ((p[2 * k] * 16 + p[2 * k + 1]) as u8) ^ h[k])
}

/// 64×64 u16 matrix generated from a job's pre_pow_hash.
#[derive(Clone)]
pub struct Matrix(pub Box<[[u16; N]; N]>);

impl View for Matrix {
    type V = Seq<Seq<u16>>;

    open spec fn view(&self) -> Seq<Seq<u16>> {
        self.0@.map_values(|r: [u16; N]| r@)
    }
}

fn row_has_nonzero(row: &[u16; N]) -> (r: bool)
    ensures
        r == row_nonzero(row@),
{
    for j in 0..N
        invariant
            forall|j2: int| 0 <= j2 < j ==> row@[j2] == 0,
    {
        if row[j] != 0 {
            return true;
        }
    }
    false
}

fn rows_all_nonzero(data: &[[u16; N]; N]) -> (r: bool)
    ensures
        r == all_rows_nonzero(data@.map_values(|r: [u16; N]| r@)),
{
    let ghost m = data@.map_values(|r: [u16; N]| r@);
    for i in 0..N
        invariant
            m == data@.map_values(|r: [u16; N]| r@),
            forall|i2: int| 0 <= i2 < i ==> row_nonzero(#[trigger] m[i2]),
    {
        if !row_has_nonzero(&data[i]) {
            assert(m[i as int] == data@[i as int]@);
            return false;
        }
    }
    true
}

proof fn lemma_wrapping_step(sum: u16, a: u16, b: u16, d: int)
    requires
        sum == d % 0x1_0000,
    ensures
        sum.wrapping_add(a.wrapping_mul(b)) == (d + a * b) % 0x1_0000,
{
    lemma_add_mod_noop(d, a * b, 0x1_0000);
    assert(a.wrapping_mul(b) == (a * b) % 0x1_0000);
}

/// Fills the next 64×64 attempt from the generator, which stands at the
/// start of attempt `k` from `seed`.
fn fill_attempt(rng: &mut XoShiRo256PlusPlus, Ghost(seed): Ghost<Seq<u8>>, Ghost(k): Ghost<nat>) -> (data: Box<[[u16; N]; N]>)
    requires
        old(rng)@ == state_after(seed_state(seed), 4096 * k),
    ensures
        final(rng)@ == state_after(seed_state(seed), 4096 * (k + 1)),
        data@.map_values(|r: [u16; N]| r@) == matrix_attempt(seed, k),
{
    let ghost s0 = seed_state(seed);
    let ghost attempt = matrix_attempt(seed, k);
    let mut data: Box<[[u16; N]; N]> = Box::new([[0u16; 64]; 64]);
    for i in 0..N
        invariant
            rng@ == state_after(s0, (4096 * k + 64 * i) as nat),
            attempt == matrix_attempt(seed, k),
            s0 == seed_state(seed),
            forall|i2: int, j2: int|
                0 <= i2 < i && 0 <= j2 < N ==> data@[i2]@[j2] == attempt[i2][j2],
    {
        let mut row = [0u16; 64];
        for j in 0..N
            invariant
                i < N,
                rng@ == state_after(s0, (4096 * k + 64 * i + j) as nat),
                attempt == matrix_attempt(seed, k),
                s0 == seed_state(seed),
                forall|j2: int| 0 <= j2 < j ==> row@[j2] == attempt[i as int][j2],
        {
            let ghost n: nat = (4096 * k + 64 * i + j) as nat;
            assert(attempt[i as int][j as int] == low16(output_at(s0, n)));
            let v = rng.next_u16();
            row[j] = v;
            assert(state_after(s0, n + 1) == crate::xoshiro::xoshiro_step(state_after(s0, n)));
        }
        data[i] = row;
    }
    assert(data@.map_values(|r: [u16; N]| r@) =~~= attempt);
    data
}

impl Matrix {
    /// Fills a 64×64 matrix, row by row, with the low 16 bits of successive
    /// XoShiRo256++ outputs seeded from `seed`, and repeats with the following
    /// outputs while some row is all zero. The result is the first attempt
    /// with no all-zero row.
    pub fn generate(seed: &[u8; 32]) -> (m: Self)
        requires
            generation_ends(seed@),
        ensures
            generated_from(seed@, m@),
    {
        let mut rng = XoShiRo256PlusPlus::new(seed);
        let ghost s0 = seed_state(seed@);
        let ghost kw: nat = choose|k: nat| all_rows_nonzero(#[trigger] matrix_attempt(seed@, k));
        let ghost mut k: nat = 0;
        loop
            invariant
                rng@ == state_after(s0, 4096 * k),
                s0 == seed_state(seed@),
                all_rows_nonzero(matrix_attempt(seed@, kw)),
                forall|k2: nat| k2 < k ==> !all_rows_nonzero(#[trigger] matrix_attempt(seed@, k2)),
                k <= kw,
            decreases kw - k,
        {
            let data = fill_attempt(&mut rng, Ghost(seed@), Ghost(k));
            if rows_all_nonzero(&data) {
                return Matrix(data);
            }
            proof {
                k = k + 1;
            }
        }
    }

    /// `generate` with at most `attempts` attempts: the generated matrix, or
    /// `None` when each of the first `attempts` attempts has an all-zero row.
    pub fn generate_within(seed: &[u8; 32], attempts: u64) -> (r: Option<Self>)
        ensures
            r matches Some(m) ==> generated_from(seed@, m@),
            r is None ==> forall|k: nat| k < attempts ==> !all_rows_nonzero(
                #[trigger] matrix_attempt(seed@, k),
            ),
    {
        let mut rng = XoShiRo256PlusPlus::new(seed);
        let ghost s0 = seed_state(seed@);
        let mut done: u64 = 0;
        while done < attempts
            invariant
                done <= attempts,
                rng@ == state_after(s0, 4096 * (done as nat)),
                s0 == seed_state(seed@),
                forall|k2: nat| k2 < done ==> !all_rows_nonzero(#[trigger] matrix_attempt(seed@, k2)),
            decreases attempts - done,
        {
            let data = fill_attempt(&mut rng, Ghost(seed@), Ghost(done as nat));
            if rows_all_nonzero(&data) {
                return Some(Matrix(data));
            }
            done = done + 1;
        }
        None
    }

    /// Matrix × vector product with wrapping u16 arithmetic; entry i is bits
    /// [13:10] of row i's wrapping dot product with `vec`.
    pub fn multiply(&self, vec: &[u16; N]) -> (out: [u16; N])
        ensures
            out@ == product_spec(self@, vec@),
            forall|i: int| 0 <= i < N ==> #[trigger] out@[i] < 16,
    {
        let mut out = [0u16; 64];
        for i in 0..N
            invariant
                forall|i2: int|
                    0 <= i2 < i ==> out@[i2] == high_nibble_of_sum(dot(self@[i2], vec@, N as nat)),
        {
            let row: &[u16; N] = &self.0[i];
            assert(row@ == self@[i as int]);
            let mut sum: u16 = 0;
            for j in 0..N
                invariant
                    sum == dot(row@, vec@, j as nat) % 0x1_0000,
            {
                proof {
                    lemma_wrapping_step(sum, row@[j as int], vec@[j as int], dot(row@, vec@, j as nat));
                }
                sum = sum.wrapping_add(row[j].wrapping_mul(vec[j]));
            }
            assert((sum >> 10u16) & 0xFu16 == sum / 0x400 % 0x10) by (bit_vector);
            out[i] = (sum >> 10) & 0xF;
        }
        assert(out@ =~= product_spec(self@, vec@));
        out
    }

    /// The matrix step of kHeavyHash: multiplies the matrix by the 64 nibbles
    /// of `hash` (high nibble of each byte first), packs the 64 result nibbles
    /// two to a byte and xors the 32 bytes with `hash`.
    pub fn heavy_mix(&self, hash: &[u8; 32]) -> (r: [u8; 32])
        ensures
            r@ == heavy_mix_spec(self@, hash@),
    {
        let mut vec = [0u16; 64];
        for k in 0..32
            invariant
                forall|j: int| 0 <= j < 2 * k ==> vec@[j] == hash_nibbles(hash@)[j],
        {
            let b = hash[k];
            assert(((b >> 4u8) as u16) == b / 16 && ((b & 0x0Fu8) as u16) == b % 16) by (bit_vector);
            vec[2 * k] = (b >> 4) as u16;
            vec[2 * k + 1] = (b & 0x0F) as u16;
            assert(hash_nibbles(hash@)[2 * k as int] == (b / 16) as u16);
            assert(hash_nibbles(hash@)[2 * k + 1] == (b % 16) as u16);
        }
        assert(vec@ =~= hash_nibbles(hash@));
        let p = self.multiply(&vec);
        let ghost ps = product_spec(self@, hash_nibbles(hash@));
        let mut out = [0u8; 32];
        for k in 0..32
            invariant
                p@ == ps,
                ps == product_spec(self@, hash_nibbles(hash@)),
                forall|j: int| 0 <= j < k ==> out@[j] == heavy_mix_spec(self@, hash@)[j],
        {
            let hi = p[2 * k];
            let lo = p[2 * k + 1];
            assert(hi < 16 && lo < 16);
            assert((((hi << 4u16) | lo) as u8) == (hi * 16 + lo) as u8) by (bit_vector)
                requires
                    hi < 16 && lo < 16,
            ;
            out[k] = (((hi << 4) | lo) as u8) ^ hash[k];
        }
        assert(out@ =~= heavy_mix_spec(self@, hash@));
        out
    }

    /// kHeavyHash of `hash` under this matrix: the Keccak-based `KHeavyHash`
    /// of the matrix step's result.
    pub fn heavy_hash(&self, hash: &[u8; 32]) -> (r: [u8; 32])
        ensures
            r@ == kheavy_hash_of(heavy_mix_spec(self@, hash@)),
    {
        kheavy_hash(self.heavy_mix(hash))
    }
}

} // verus!
