//! Constants and arithmetic of the CPU nonce scan.

use crate::kheavyhash::{batch_nonces, prefixed_nonce};
use crate::stratum::protocol::{extranonce_result, hex_bytes, lemma_prefix_kept};
use vstd::arithmetic::power2::{lemma2_to64, lemma_pow2_adds, lemma_pow2_pos, pow2};
use vstd::bits::low_bits_mask;
use vstd::prelude::*;

verus! {

/// Default number of nonces a worker tries before looking for fresh work.
pub const DEFAULT_BATCH_SIZE: u64 = 4096;

/// Where miner thread `t` starts its nonce counter: the thread number times
/// 0x9e3779b97f4a7c15, modulo 2^64.
pub open spec fn start_value(t: nat) -> nat {
    (t * 0x9e3779b97f4a7c15nat) % 0x1_0000_0000_0000_0000nat
}

/// The first nonce of miner thread `thread_id`: the thread number times
/// 0x9e3779b97f4a7c15, wrapping, so that threads start far apart.
pub fn start_nonce(thread_id: usize) -> (r: u64)
    ensures
        r == start_value(thread_id as nat),
{
    (thread_id as u64).wrapping_mul(0x9e3779b97f4a7c15)
}

/// The counter value of the try numbered `i` (from 0) of thread `t`: the
/// thread advances its counter by one before each try, batch after batch.
pub open spec fn thread_try(t: nat, i: nat) -> nat {
    (start_value(t) + i + 1) % 0x1_0000_0000_0000_0000nat
}

/// How far apart, around a circle of `m` values, two threads `k` apart
/// start: their distance modulo `m`, whichever way round is shorter.
pub open spec fn stride_gap_in(k: nat, m: nat) -> int {
    let r = ((k * 0x9e3779b97f4a7c15nat) % m) as int;
    if r <= m - r {
        r
    } else {
        m - r
    }
}

/// How far apart, around the 2^64 circle, two threads `k` apart start.
pub open spec fn stride_gap(k: nat) -> int {
    stride_gap_in(k, 0x1_0000_0000_0000_0000nat)
}

/// The distance between two thread numbers.
pub open spec fn thread_distance(a: nat, b: nat) -> nat {
    if a >= b {
        (a - b) as nat
    } else {
        (b - a) as nat
    }
}

/// `k` strides plus an offset smaller than the gap of `k` strides around a
/// circle of `m` values is never a whole number `q` of turns of the circle.
proof fn lemma_offset_not_turn(k: nat, d: int, q: int, m: int)
    requires
        k >= 1,
        m > 0,
        -stride_gap_in(k, m as nat) < d < stride_gap_in(k, m as nat),
    ensures
        k * 0x9e3779b97f4a7c15int + d != m * q,
{
    let x: int = k * 0x9e3779b97f4a7c15int;
    let r: int = x % m;
    let qk: int = x / m;
    assert(x == m * qk + r) by {
        vstd::arithmetic::div_mod::lemma_fundamental_div_mod(x, m);
    }
    assert(0 <= r < m) by {
        vstd::arithmetic::div_mod::lemma_mod_bound(x, m);
    }
    assert(r == ((k * 0x9e3779b97f4a7c15nat) % (m as nat)) as int);
    assert(0 < r + d < m);
    if x + d == m * q {
        let z = q - qk;
        assert(r + d == m * z) by (nonlinear_arith)
            requires
                x == m * qk + r,
                x + d == m * q,
                z == q - qk,
        ;
        assert(m * z <= 0 || m * z >= m) by (nonlinear_arith)
            requires
                m > 0,
        ;
    }
}

/// Two different threads' counters, advanced by fewer steps each than the
/// gap between their starting points around a circle of `m` values, never
/// agree modulo `m`.
pub proof fn lemma_counters_apart(a: nat, b: nat, i: nat, j: nat, m: nat)
    requires
        m > 0,
        a != b,
        i < stride_gap_in(thread_distance(a, b), m),
        j < stride_gap_in(thread_distance(a, b), m),
    ensures
        (a * 0x9e3779b97f4a7c15nat + i + 1) % m != (b * 0x9e3779b97f4a7c15nat + j + 1) % m,
{
    let mm: int = m as int;
    let c: int = 0x9e3779b97f4a7c15int;
    let ya: int = a * c + i + 1;
    let yb: int = b * c + j + 1;
    if ya % mm == yb % mm {
        vstd::arithmetic::div_mod::lemma_fundamental_div_mod(ya, mm);
        vstd::arithmetic::div_mod::lemma_fundamental_div_mod(yb, mm);
        let pa = ya / mm;
        let pb = yb / mm;
        if a > b {
            let k = (a - b) as nat;
            let d: int = i - j;
            let q: int = pa - pb;
            assert(k * c + d == mm * q) by (nonlinear_arith)
                requires
                    k == a - b,
                    ya == a * c + i + 1,
                    yb == b * c + j + 1,
                    ya == mm * pa + ya % mm,
                    yb == mm * pb + yb % mm,
                    ya % mm == yb % mm,
                    d == i - j,
                    q == pa - pb,
            ;
            lemma_offset_not_turn(k, d, q, mm);
        } else {
            let k = (b - a) as nat;
            let d: int = j - i;
            let q: int = pb - pa;
            assert(k * c + d == mm * q) by (nonlinear_arith)
                requires
                    k == b - a,
                    ya == a * c + i + 1,
                    yb == b * c + j + 1,
                    ya == mm * pa + ya % mm,
                    yb == mm * pb + yb % mm,
                    ya % mm == yb % mm,
                    d == j - i,
                    q == pb - pa,
            ;
            lemma_offset_not_turn(k, d, q, mm);
        }
    }
}

/// The low `w` bits of a thread's counter are those of its unwrapped value.
proof fn lemma_thread_try_low_bits(t: nat, i: nat, w: nat)
    requires
        w <= 64,
    ensures
        thread_try(t, i) % pow2(w) == (t * 0x9e3779b97f4a7c15nat + i + 1) % pow2(w),
{
    let big: int = 0x1_0000_0000_0000_0000int;
    let m: int = pow2(w) as int;
    let rest: int = pow2((64 - w) as nat) as int;
    let x: int = t * 0x9e3779b97f4a7c15int;
    lemma2_to64();
    lemma_pow2_adds(w, (64 - w) as nat);
    lemma_pow2_pos(w);
    lemma_pow2_pos((64 - w) as nat);
    assert(big == m * rest);
    let y: int = x % big + i + 1;
    vstd::arithmetic::div_mod::lemma_mod_mod(y, m, rest);
    vstd::arithmetic::div_mod::lemma_fundamental_div_mod(x, big);
    let q: int = x / big;
    assert(y == m * (-(rest * q)) + (x + i + 1)) by (nonlinear_arith)
        requires
            x == big * q + x % big,
            big == m * rest,
            y == x % big + i + 1,
    ;
    vstd::arithmetic::div_mod::lemma_mod_multiples_vanish(-(rest * q), x + i + 1, m);
}

/// Two different threads never try the same counter value as long as each
/// has made fewer tries than the gap between their starting points.
pub proof fn lemma_tries_disjoint(a: nat, b: nat, i: nat, j: nat)
    requires
        a != b,
        i < stride_gap(thread_distance(a, b)),
        j < stride_gap(thread_distance(a, b)),
    ensures
        thread_try(a, i) != thread_try(b, j),
{
    lemma2_to64();
    lemma_counters_apart(a, b, i, j, 0x1_0000_0000_0000_0000nat);
    lemma_thread_try_low_bits(a, i, 64);
    lemma_thread_try_low_bits(b, j, 64);
    vstd::arithmetic::div_mod::lemma_small_mod(thread_try(a, i), pow2(64));
    vstd::arithmetic::div_mod::lemma_small_mod(thread_try(b, j), pow2(64));
}

/// The number of nonce bits left to the miner under an extranonce prefix.
pub open spec fn free_bits(prefix: Seq<char>) -> nat {
    (64 - 8 * hex_bytes(prefix).len()) as nat
}

/// The nonce that try `i` of thread `t` hashes under the pool's prefix.
pub open spec fn thread_nonce(t: nat, i: nat, fixed: u64, mask: u64) -> u64 {
    prefixed_nonce(fixed, mask, thread_try(t, i) as u64)
}

/// The bits a prefix's mask keeps of a counter are the counter modulo
/// 2^(free bits).
proof fn lemma_mask_keeps_low_bits(
    prefix: Seq<char>,
    size: Option<u64>,
    fixed: u64,
    mask: u64,
    c: u64,
)
    requires
        extranonce_result(prefix, size, Ok((fixed, mask))),
    ensures
        (c & mask) as nat == c as nat % pow2(free_bits(prefix)),
{
    let len = hex_bytes(prefix).len();
    lemma2_to64();
    if len == 0 {
        assert(c & 0xFFFF_FFFF_FFFF_FFFFu64 == c) by (bit_vector);
        vstd::arithmetic::div_mod::lemma_small_mod(c as nat, pow2(64));
    } else {
        let shift = (64 - 8 * len) as u64;
        vstd::bits::lemma_u64_pow2_no_overflow(shift as nat);
        vstd::bits::lemma_u64_shl_is_mul(1, shift);
        vstd::bits::lemma_u64_low_bits_mask_is_mod(c, shift as nat);
        assert(mask == low_bits_mask(shift as nat) as u64);
    }
}

/// Under any extranonce prefix, two different threads never hash the same
/// nonce as long as each has made fewer tries than the gap between their
/// starting points around the circle of 2^(free bits) values.
pub proof fn lemma_nonces_disjoint(
    prefix: Seq<char>,
    size: Option<u64>,
    fixed: u64,
    mask: u64,
    a: nat,
    b: nat,
    i: nat,
    j: nat,
)
    requires
        extranonce_result(prefix, size, Ok((fixed, mask))),
        a != b,
        i < stride_gap_in(thread_distance(a, b), pow2(free_bits(prefix))),
        j < stride_gap_in(thread_distance(a, b), pow2(free_bits(prefix))),
    ensures
        thread_nonce(a, i, fixed, mask) != thread_nonce(b, j, fixed, mask),
{
    let w = free_bits(prefix);
    let ca = thread_try(a, i) as u64;
    let cb = thread_try(b, j) as u64;
    lemma_prefix_kept(prefix, size, fixed, mask, ca);
    lemma_prefix_kept(prefix, size, fixed, mask, cb);
    lemma_mask_keeps_low_bits(prefix, size, fixed, mask, ca);
    lemma_mask_keeps_low_bits(prefix, size, fixed, mask, cb);
    lemma_thread_try_low_bits(a, i, w);
    lemma_thread_try_low_bits(b, j, w);
    lemma_pow2_pos(w);
    lemma_counters_apart(a, b, i, j, pow2(w));
}

/// Threads fewer than 512 apart start at least 21882289479697683 (about
/// 2^54) counter values apart, around the 2^64 circle.
pub proof fn lemma_stride_gap_bound(k: nat)
    requires
        1 <= k < 512,
    ensures
        stride_gap(k) >= 21882289479697683,
{
    let kk = k as u64;
    assert(1 <= kk < 512 ==> 21882289479697683 <= (kk * 0x9e3779b97f4a7c15u64) % 0x1_0000_0000_0000_0000
        <= 0x1_0000_0000_0000_0000 - 21882289479697683) by (bit_vector);
}

/// Among the first 512 threads, no two ever try the same counter value
/// within their first 21882289479697683 tries each.
pub proof fn lemma_threads_never_meet(a: nat, b: nat, i: nat, j: nat)
    requires
        a != b,
        a < 512,
        b < 512,
        i < 21882289479697683,
        j < 21882289479697683,
    ensures
        thread_try(a, i) != thread_try(b, j),
{
    lemma_stride_gap_bound(thread_distance(a, b));
    lemma_tries_disjoint(a, b, i, j);
}


/// For a prefix of `p` bytes, the least gap between the starting points of
/// two of the first 512 threads around the circle of 2^(64 - 8p) values.
pub open spec fn prefix_gap_floor(p: nat) -> int {
    if p == 0 {
        21882289479697683
    } else if p == 1 {
        47799149907267
    } else if p == 2 {
        199995236164
    } else if p == 3 {
        154057042
    } else if p == 4 {
        5653799
    } else if p == 5 {
        15757
    } else if p == 6 {
        20
    } else {
        0
    }
}

/// Threads fewer than 512 apart start at least `prefix_gap_floor(p)` apart
/// around the circle of nonces that a `p`-byte prefix leaves to the miner.
pub proof fn lemma_prefix_gap_bound(k: nat, p: nat)
    requires
        1 <= k < 512,
        p < 8,
    ensures
        stride_gap_in(k, pow2((64 - 8 * p) as nat)) >= prefix_gap_floor(p),
{
    let kk = k as u64;
    lemma2_to64();
    if p == 0 {
        assert(1 <= kk < 512 ==> 21882289479697683 <= (kk * 0x9e3779b97f4a7c15u64)
            % 0x1_0000_0000_0000_0000 <= 0x1_0000_0000_0000_0000 - 21882289479697683)
            by (bit_vector);
        assert(pow2(64) == 0x1_0000_0000_0000_0000nat);
        assert(stride_gap_in(k, 0x1_0000_0000_0000_0000nat) >= prefix_gap_floor(p));
    } else if p == 1 {
        assert(1 <= kk < 512 ==> 47799149907267 <= (kk * 0x9e3779b97f4a7c15u64)
            % 0x100_0000_0000_0000 <= 0x100_0000_0000_0000 - 47799149907267) by (bit_vector);
        lemma_pow2_adds(32, 24);
        assert(pow2(56) == 0x100_0000_0000_0000nat);
        assert(stride_gap_in(k, 0x100_0000_0000_0000nat) >= prefix_gap_floor(p));
    } else if p == 2 {
        assert(1 <= kk < 512 ==> 199995236164 <= (kk * 0x9e3779b97f4a7c15u64) % 0x1_0000_0000_0000
            <= 0x1_0000_0000_0000 - 199995236164) by (bit_vector);
        lemma_pow2_adds(32, 16);
        assert(pow2(48) == 0x1_0000_0000_0000nat);
        assert(stride_gap_in(k, 0x1_0000_0000_0000nat) >= prefix_gap_floor(p));
    } else if p == 3 {
        assert(1 <= kk < 512 ==> 154057042 <= (kk * 0x9e3779b97f4a7c15u64) % 0x100_0000_0000
            <= 0x100_0000_0000 - 154057042) by (bit_vector);
        lemma_pow2_adds(32, 8);
        assert(pow2(40) == 0x100_0000_0000nat);
        assert(stride_gap_in(k, 0x100_0000_0000nat) >= prefix_gap_floor(p));
    } else if p == 4 {
        assert(1 <= kk < 512 ==> 5653799 <= (kk * 0x9e3779b97f4a7c15u64) % 0x1_0000_0000
            <= 0x1_0000_0000 - 5653799) by (bit_vector);
        assert(pow2(32) == 0x1_0000_0000nat);
        assert(stride_gap_in(k, 0x1_0000_0000nat) >= prefix_gap_floor(p));
    } else if p == 5 {
        assert(1 <= kk < 512 ==> 15757 <= (kk * 0x9e3779b97f4a7c15u64) % 0x100_0000 <= 0x100_0000
            - 15757) by (bit_vector);
        assert(pow2(24) == 0x100_0000nat);
        assert(stride_gap_in(k, 0x100_0000nat) >= prefix_gap_floor(p));
    } else if p == 6 {
        assert(1 <= kk < 512 ==> 20 <= (kk * 0x9e3779b97f4a7c15u64) % 0x1_0000 <= 0x1_0000 - 20)
            by (bit_vector);
        assert(pow2(16) == 0x1_0000nat);
        assert(stride_gap_in(k, 0x1_0000nat) >= prefix_gap_floor(p));
    } else {
        vstd::arithmetic::div_mod::lemma_mod_bound(k * 0x9e3779b97f4a7c15int, 256);
    }
}

/// Under an extranonce prefix of `p` bytes, no two of the first 512 threads
/// ever hash the same nonce within their first `prefix_gap_floor(p)` tries
/// each.
pub proof fn lemma_prefixed_threads_never_meet(
    prefix: Seq<char>,
    size: Option<u64>,
    fixed: u64,
    mask: u64,
    a: nat,
    b: nat,
    i: nat,
    j: nat,
)
    requires
        extranonce_result(prefix, size, Ok((fixed, mask))),
        a != b,
        a < 512,
        b < 512,
        i < prefix_gap_floor(hex_bytes(prefix).len()),
        j < prefix_gap_floor(hex_bytes(prefix).len()),
    ensures
        thread_nonce(a, i, fixed, mask) != thread_nonce(b, j, fixed, mask),
{
    lemma_prefix_gap_bound(thread_distance(a, b), hex_bytes(prefix).len());
    lemma_nonces_disjoint(prefix, size, fixed, mask, a, b, i, j);
}

/// With no pool prefix, a batch that a thread starts after `done` tries
/// holds its tries numbered `done`, `done + 1`, and so on, in order.
pub proof fn lemma_batch_is_thread_tries(t: nat, done: nat, n: nat, k: int)
    requires
        0 <= k < n,
    ensures
        batch_nonces(
            ((start_value(t) + done) % 0x1_0000_0000_0000_0000nat) as u64,
            n,
            0,
            0xFFFF_FFFF_FFFF_FFFFu64,
        )[k] == thread_try(t, (done + k) as nat),
{
    let m: int = 0x1_0000_0000_0000_0000int;
    let s: int = start_value(t) as int + done as int;
    let c: u64 = ((s % m + k + 1) % m) as u64;
    vstd::arithmetic::div_mod::lemma_add_mod_noop_right(k + 1, s, m);
    assert((c & 0xFFFF_FFFF_FFFF_FFFFu64) | 0u64 == c) by (bit_vector);
}

} // verus!
