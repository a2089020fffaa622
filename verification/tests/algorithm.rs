use kaspa_miner::kheavyhash::{compute, meets_target, JobContext, PowHasher};
use kaspa_miner::matrix::{Matrix, N};
use kaspa_miner::miner::start_nonce;
use kaspa_miner::xoshiro::XoShiRo256PlusPlus;

fn seed_of(words: [u64; 4]) -> [u8; 32] {
    let mut seed = [0u8; 32];
    for i in 0..4 {
        seed[i * 8..(i + 1) * 8].copy_from_slice(&words[i].to_le_bytes());
    }
    seed
}

struct Reference {
    s: [u64; 4],
}

impl Reference {
    fn next(&mut self) -> u64 {
        let result = self.s[0]
            .wrapping_add(self.s[3])
            .rotate_left(23)
            .wrapping_add(self.s[0]);
        let t = self.s[1] << 17;
        self.s[2] ^= self.s[0];
        self.s[3] ^= self.s[1];
        self.s[1] ^= self.s[2];
        self.s[0] ^= self.s[3];
        self.s[2] ^= t;
        self.s[3] = self.s[3].rotate_left(45);
        result
    }
}

#[test]
fn xoshiro_matches_reference_vector() {
    let mut rng = XoShiRo256PlusPlus::new(&seed_of([1, 2, 3, 4]));
    let expected: [u64; 10] = [
        41943041,
        58720359,
        3588806011781223,
        3591011842654386,
        9228616714210784205,
        9973669472204895162,
        14011001112246962877,
        12406186145184390807,
        15849039046786891736,
        10450023813501588000,
    ];
    for e in expected {
        assert_eq!(rng.next_u64(), e);
    }
}

#[test]
fn xoshiro_zero_seed_starts_from_one() {
    let mut rng = XoShiRo256PlusPlus::new(&[0u8; 32]);
    // state (1, 0, 0, 0): rotl(1, 23) + 1
    assert_eq!(rng.next_u64(), (1u64 << 23) + 1);
    let mut reference = Reference { s: [1, 0, 0, 0] };
    reference.next();
    for _ in 0..1000 {
        assert_eq!(rng.next_u64(), reference.next());
    }
}

#[test]
fn xoshiro_next_u16_is_low_bits_of_next_u64() {
    let seed = seed_of([0xdead_beef, 7, 0x1234_5678_9abc_def0, 99]);
    let mut a = XoShiRo256PlusPlus::new(&seed);
    let mut b = XoShiRo256PlusPlus::new(&seed);
    for _ in 0..100 {
        assert_eq!(a.next_u16(), (b.next_u64() & 0xFFFF) as u16);
    }
}

#[test]
fn generate_fills_rows_from_successive_outputs() {
    let seed = seed_of([11, 22, 33, 44]);
    let m = Matrix::generate(&seed);
    let mut reference = Reference { s: [11, 22, 33, 44] };
    for i in 0..N {
        for j in 0..N {
            assert_eq!(m.0[i][j], (reference.next() & 0xFFFF) as u16);
        }
    }
    assert!(m.0.iter().all(|row| row.iter().any(|&v| v != 0)));
}

#[test]
fn generate_is_deterministic() {
    let seed = [42u8; 32];
    let a = Matrix::generate(&seed);
    let b = Matrix::generate(&seed);
    assert_eq!(*a.0, *b.0);
}

fn reference_product(m: &Matrix, v: &[u16; N]) -> [u16; N] {
    let mut out = [0u16; N];
    for i in 0..N {
        let mut sum: u64 = 0;
        for j in 0..N {
            sum += m.0[i][j] as u64 * v[j] as u64;
        }
        out[i] = ((sum % 65536) / 1024 % 16) as u16;
    }
    out
}

#[test]
fn multiply_takes_bits_13_to_10_of_wrapping_dot_products() {
    let m = Matrix::generate(&seed_of([5, 6, 7, 8]));
    let mut v = [0u16; N];
    for (j, x) in v.iter_mut().enumerate() {
        *x = (j % 16) as u16;
    }
    let out = m.multiply(&v);
    assert_eq!(out, reference_product(&m, &v));
    assert!(out.iter().all(|&x| x < 16));
}

#[test]
fn multiply_of_a_known_matrix() {
    let mut cells = Box::new([[0u16; N]; N]);
    cells[0][0] = 1024;
    cells[1][0] = 0xFFFF;
    cells[1][1] = 1;
    let m = Matrix(cells);
    let mut v = [0u16; N];
    v[0] = 3;
    v[1] = 2;
    let out = m.multiply(&v);
    // row 0: 3072 -> bits [13:10] = 3
    assert_eq!(out[0], 3);
    // row 1: 0xFFFF * 3 + 2 = 196607 -> mod 65536 = 65535 -> 63 % 16 = 15
    assert_eq!(out[1], 15);
    assert_eq!(out[2], 0);
}

#[test]
fn heavy_mix_packs_nibbles_and_xors_the_hash() {
    let m = Matrix::generate(&seed_of([9, 8, 7, 6]));
    let hash: [u8; 32] = core::array::from_fn(|i| (i * 37 + 5) as u8);
    let mut v = [0u16; N];
    for k in 0..32 {
        v[2 * k] = (hash[k] >> 4) as u16;
        v[2 * k + 1] = (hash[k] & 0x0F) as u16;
    }
    let p = reference_product(&m, &v);
    let mixed = m.heavy_mix(&hash);
    for k in 0..32 {
        assert_eq!(mixed[k], ((p[2 * k] << 4 | p[2 * k + 1]) as u8) ^ hash[k]);
    }
}

#[test]
fn heavy_hash_applies_kheavyhash_to_the_mix() {
    let m = Matrix::generate(&seed_of([1, 1, 1, 1]));
    let hash = [7u8; 32];
    let mixed = m.heavy_mix(&hash);
    let expected =
        kaspa_hashes::KHeavyHash::hash(kaspa_hashes::Hash::from_bytes(mixed)).as_bytes();
    let got = m.heavy_hash(&hash);
    assert_eq!(got, expected);
    assert_ne!(got, mixed);
}

#[test]
fn pow_hash_matches_kaspa_hashes() {
    let hasher = PowHasher::new([42u8; 32], 5435345234);
    let got = hasher.finalize_with_nonce(432432432);
    let expected = kaspa_hashes::PowHash::new(kaspa_hashes::Hash::from_bytes([42u8; 32]), 5435345234)
        .finalize_with_nonce(432432432)
        .as_bytes();
    assert_eq!(got, expected);
    assert_ne!(got, [42u8; 32]);
    assert_ne!(got, hasher.finalize_with_nonce(432432433));
}

#[test]
fn compute_chains_pow_hash_and_heavy_hash() {
    let pre = [3u8; 32];
    let m = Matrix::generate(&pre);
    let hasher = PowHasher::new(pre, 1700000000);
    let inner = hasher.finalize_with_nonce(77);
    assert_eq!(compute(&hasher, &m, 77), m.heavy_hash(&inner));
}

fn hash_of_words(words: [u64; 4]) -> [u8; 32] {
    seed_of(words)
}

#[test]
fn meets_target_compares_as_little_endian_u256() {
    let t = [5u64, 6, 7, 8];
    assert!(meets_target(&hash_of_words([5, 6, 7, 8]), &t));
    assert!(meets_target(&hash_of_words([u64::MAX, u64::MAX, u64::MAX, 7]), &t));
    assert!(!meets_target(&hash_of_words([0, 0, 0, 9]), &t));
    assert!(!meets_target(&hash_of_words([6, 6, 7, 8]), &t));
    assert!(meets_target(&hash_of_words([4, 6, 7, 8]), &t));
    assert!(!meets_target(&hash_of_words([0, 7, 7, 8]), &t));
    assert!(meets_target(&[0u8; 32], &[0, 0, 0, 0]));
    assert!(meets_target(&[0xFF; 32], &[u64::MAX; 4]));
}

#[test]
fn try_nonce_and_batches_agree() {
    let pre = [1u8; 32];
    let everything = JobContext::new(pre, 1, [u64::MAX; 4]);
    assert_eq!(everything.try_nonce(12), Some(12));
    let (last, found) = everything.mine_batch(u64::MAX - 1, 4, 0, u64::MAX);
    assert_eq!(last, 2);
    assert_eq!(found, vec![u64::MAX, 0, 1, 2]);

    let nothing = JobContext::new(pre, 1, [0; 4]);
    assert_eq!(nothing.try_nonce(12), None);
    let (last, found) = nothing.mine_batch(100, 16, 0, u64::MAX);
    assert_eq!(last, 116);
    assert!(found.is_empty());

    let ctx = JobContext::new(pre, 1, [0, 0, 0, u64::MAX / 2]);
    let (_, found) = ctx.mine_batch(1000, 64, 0, u64::MAX);
    let expected: Vec<u64> = (1001..=1064).filter(|&n| ctx.try_nonce(n).is_some()).collect();
    assert_eq!(found, expected);
}

#[test]
fn batches_carry_the_pool_prefix() {
    let pre = [1u8; 32];
    let everything = JobContext::new(pre, 1, [u64::MAX; 4]);
    let fixed = 0xabcdu64 << 48;
    let mask = (1u64 << 48) - 1;
    let (last, found) = everything.mine_batch(mask - 1, 3, fixed, mask);
    assert_eq!(last, mask + 2);
    assert_eq!(found, vec![fixed | mask, fixed, fixed | 1]);
}

#[test]
fn try_new_builds_the_same_job() {
    let pre = [7u8; 32];
    let a = JobContext::new(pre, 9, [u64::MAX; 4]);
    let b = JobContext::try_new(pre, 9, [u64::MAX; 4], 1).unwrap();
    assert_eq!(a.try_nonce(3), b.try_nonce(3));
    assert!(JobContext::try_new(pre, 9, [0; 4], 0).is_none());
}

#[test]
fn start_nonces_are_spread_by_the_golden_ratio_constant() {
    assert_eq!(start_nonce(0), 0);
    assert_eq!(start_nonce(1), 0x9e3779b97f4a7c15);
    assert_eq!(start_nonce(3), 0x9e3779b97f4a7c15u64.wrapping_mul(3));
}

#[test]
fn threads_start_far_apart() {
    let mut min_gap = u64::MAX;
    for a in 0..512usize {
        for b in 0..512usize {
            if a != b {
                let d = start_nonce(a).wrapping_sub(start_nonce(b));
                min_gap = min_gap.min(d.min(d.wrapping_neg()));
            }
        }
    }
    assert_eq!(min_gap, 21882289479697683);
}

#[test]
fn threads_stay_apart_under_a_two_byte_prefix() {
    let mask = (1u64 << 48) - 1;
    let mut min_gap = u64::MAX;
    for a in 0..512usize {
        for b in 0..512usize {
            if a != b {
                let d = start_nonce(a).wrapping_sub(start_nonce(b)) & mask;
                min_gap = min_gap.min(d.min(d.wrapping_neg() & mask));
            }
        }
    }
    assert_eq!(min_gap, 199995236164);
}
