use crate::bytes::{le_value, le_word, lemma_le_value_word, read_le_word};
use vstd::prelude::*;

verus! {

/// `x` rotated left by `k` bits, for `0 < k < 64`.
pub open spec fn rotl(x: u64, k: u64) -> u64 {
    (x << k) | (x >> (64 - k) as u64)
}

/// Whether a generator state has at least one non-zero word.
pub open spec fn nonzero_state(s: Seq<u64>) -> bool {
    s.len() == 4 && !(s[0] == 0 && s[1] == 0 && s[2] == 0 && s[3] == 0)
}

/// The state a 32-byte seed gives: its four little-endian words, with the
/// first word set to 1 when all four are zero.
pub open spec fn seed_state(seed: Seq<u8>) -> Seq<u64> {
    let w = seq![le_word(seed, 0), le_word(seed, 8), le_word(seed, 16), le_word(seed, 24)];
    if w[0] == 0 && w[1] == 0 && w[2] == 0 && w[3] == 0 {
        seq![1u64, 0u64, 0u64, 0u64]
    } else {
        w
    }
}

proof fn lemma_le_value_nonzero(b: Seq<u8>, k: int)
    requires
        0 <= k < b.len(),
        b[k] != 0,
    ensures
        le_value(b) > 0,
    decreases b.len(),
{
    if k > 0 {
        lemma_le_value_nonzero(b.drop_first(), k - 1);
    }
}

proof fn lemma_le_value_zero(b: Seq<u8>)
    requires
        forall|k: int| 0 <= k < b.len() ==> b[k] == 0,
    ensures
        le_value(b) == 0,
    decreases b.len(),
{
    if b.len() > 0 {
        lemma_le_value_zero(b.drop_first());
    }
}

/// A 32-byte seed with a non-zero byte seeds the generator with its four
/// 8-byte groups read as little-endian numbers, in order; an all-zero seed
/// gives the state (1, 0, 0, 0).
pub proof fn lemma_seed_state_words(seed: Seq<u8>)
    requires
        seed.len() == 32,
    ensures
        (exists|k: int| 0 <= k < 32 && seed[k] != 0) ==> forall|i: int|
            0 <= i < 4 ==> seed_state(seed)[i] as nat == le_value(
                #[trigger] seed.subrange(8 * i, 8 * i + 8),
            ),
        (forall|k: int| 0 <= k < 32 ==> seed[k] == 0) ==> seed_state(seed) == seq![
            1u64,
            0u64,
            0u64,
            0u64,
        ],
{
    let g0 = seed.subrange(0, 8);
    let g1 = seed.subrange(8, 16);
    let g2 = seed.subrange(16, 24);
    let g3 = seed.subrange(24, 32);
    lemma_le_value_word(seed, 0);
    lemma_le_value_word(seed, 8);
    lemma_le_value_word(seed, 16);
    lemma_le_value_word(seed, 24);
    if exists|k: int| 0 <= k < 32 && seed[k] != 0 {
        let k = choose|k: int| 0 <= k < 32 && seed[k] != 0;
        if k < 8 {
            lemma_le_value_nonzero(g0, k);
        } else if k < 16 {
            lemma_le_value_nonzero(g1, k - 8);
        } else if k < 24 {
            lemma_le_value_nonzero(g2, k - 16);
        } else {
            lemma_le_value_nonzero(g3, k - 24);
        }
        assert(!(le_word(seed, 0) == 0 && le_word(seed, 8) == 0 && le_word(seed, 16) == 0
            && le_word(seed, 24) == 0));
        assert forall|i: int| 0 <= i < 4 implies seed_state(seed)[i] as nat == le_value(
            #[trigger] seed.subrange(8 * i, 8 * i + 8),
        ) by {
            assert(i == 0 || i == 1 || i == 2 || i == 3);
        }
    } else {
        lemma_le_value_zero(g0);
        lemma_le_value_zero(g1);
        lemma_le_value_zero(g2);
        lemma_le_value_zero(g3);
        assert(seed_state(seed) =~= seq![1u64, 0u64, 0u64, 0u64]);
    }
}

/// The XoShiRo256++ output for state `s`.
pub open spec fn xoshiro_output(s: Seq<u64>) -> u64 {
    rotl(s[0].wrapping_add(s[3]), 23).wrapping_add(s[0])
}

/// The XoShiRo256++ state transition.
pub open spec fn xoshiro_step(s: Seq<u64>) -> Seq<u64> {
    let t = s[1] << 17u64;
    let s2 = s[2] ^ s[0];
    let s3 = s[3] ^ s[1];
    let s1 = s[1] ^ s2;
    let s0 = s[0] ^ s3;
    seq![s0, s1, s2 ^ t, rotl(s3, 45)]
}

/// The state reached from `s` after `n` steps.
pub open spec fn state_after(s: Seq<u64>, n: nat) -> Seq<u64>
    decreases n,
{
    if n == 0 {
        s
    } else {
        xoshiro_step(state_after(s, (n - 1) as nat))
    }
}

/// The `n`-th output (counting from 0) of the generator started in state `s`.
pub open spec fn output_at(s: Seq<u64>, n: nat) -> u64 {
    xoshiro_output(state_after(s, n))
}

/// XoShiRo256++ pseudo-random generator, used to fill the per-job mining matrix.
pub struct XoShiRo256PlusPlus {
    s: [u64; 4],
}

impl View for XoShiRo256PlusPlus {
    type V = Seq<u64>;

    closed spec fn view(&self) -> Seq<u64> {
        self.s@
    }
}

fn rotate_left(x: u64, k: u32) -> (r: u64)
    requires
        0 < k < 64,
    ensures
        r == rotl(x, k as u64),
{
    (x << k) | (x >> (64 - k))
}

/// The step never leads from a non-zero state to the all-zero state.
proof fn lemma_step_keeps_nonzero(a: u64, b: u64, c: u64, d: u64)
    requires
        !(a == 0 && b == 0 && c == 0 && d == 0),
    ensures
        !((a ^ (d ^ b)) == 0 && (b ^ (c ^ a)) == 0 && ((c ^ a) ^ (b << 17u64)) == 0 && rotl(
            d ^ b,
            45,
        ) == 0),
{
    assert(!((a ^ (d ^ b)) == 0 && (b ^ (c ^ a)) == 0 && ((c ^ a) ^ (b << 17u64)) == 0 && ((
    d ^ b) << 45u64 | (d ^ b) >> 19u64) == 0)) by (bit_vector)
        requires
            !(a == 0 && b == 0 && c == 0 && d == 0),
    ;
}

impl XoShiRo256PlusPlus {
    #[verifier::type_invariant]
    closed spec fn inv(self) -> bool {
        nonzero_state(self.s@)
    }

    /// Seeds the generator with the four little-endian words of `seed`,
    /// replacing an all-zero seed by the state (1, 0, 0, 0).
    pub fn new(seed: &[u8; 32]) -> (r: Self)
        ensures
            r@ == seed_state(seed@),
            nonzero_state(r@),
    {
        let b = seed.as_slice();
        let w0 = read_le_word(b, 0);
        let w1 = read_le_word(b, 8);
        let w2 = read_le_word(b, 16);
        let w3 = read_le_word(b, 24);
        let s = if w0 == 0 && w1 == 0 && w2 == 0 && w3 == 0 {
            [1u64, 0, 0, 0]
        } else {
            [w0, w1, w2, w3]
        };
        assert(s@ =~= seed_state(seed@));
        XoShiRo256PlusPlus { s }
    }

    /// Returns the output for the current state and advances the state by one step.
    pub fn next_u64(&mut self) -> (r: u64)
        ensures
            r == xoshiro_output(old(self)@),
            final(self)@ == xoshiro_step(old(self)@),
            nonzero_state(final(self)@),
    {
        proof {
            use_type_invariant(&*self);
        }
        let s0 = self.s[0];
        let s1 = self.s[1];
        let s2 = self.s[2];
        let s3 = self.s[3];
        let result = rotate_left(s0.wrapping_add(s3), 23).wrapping_add(s0);
        let t = s1 << 17;
        let n2 = s2 ^ s0;
        let n3 = s3 ^ s1;
        let n1 = s1 ^ n2;
        let n0 = s0 ^ n3;
        let ns = [n0, n1, n2 ^ t, rotate_left(n3, 45)];
        proof {
            lemma_step_keeps_nonzero(s0, s1, s2, s3);
            assert(ns@ =~= xoshiro_step(self.s@));
        }
        self.s = ns;
        result
    }

    /// The low 16 bits of the next 64-bit output.
    pub fn next_u16(&mut self) -> (r: u16)
        ensures
            r == (xoshiro_output(old(self)@) & 0xFFFF) as u16,
            final(self)@ == xoshiro_step(old(self)@),
            nonzero_state(final(self)@),
    {
        (self.next_u64() & 0xFFFF) as u16
    }
}

} // verus!
