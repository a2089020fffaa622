use vstd::prelude::*;

verus! {

/// The number whose little-endian base-256 digits are `b`.
pub open spec fn le_value(b: Seq<u8>) -> nat
    decreases b.len(),
{
    if b.len() == 0 {
        0
    } else {
        b[0] as nat + 256 * le_value(b.drop_first())
    }
}

/// The 64-bit word stored little-endian in the eight bytes of `b` at `off`.
pub open spec fn le_word(b: Seq<u8>, off: int) -> u64 {
    (b[off] as int + 0x100 * b[off + 1] + 0x1_0000 * b[off + 2] + 0x100_0000 * b[off + 3]
        + 0x1_0000_0000 * b[off + 4] + 0x100_0000_0000 * b[off + 5] + 0x1_0000_0000_0000 * b[
        off + 6] + 0x100_0000_0000_0000 * b[off + 7]) as u64
}

/// The four little-endian 64-bit words of a 32-byte string, lowest first.
pub open spec fn le_words(b: Seq<u8>) -> Seq<u64> {
    seq![le_word(b, 0), le_word(b, 8), le_word(b, 16), le_word(b, 24)]
}

/// Reads the 64-bit little-endian word at byte offset `off` of `b`.
pub fn read_le_word(b: &[u8], off: usize) -> (r: u64)
    requires
        off + 8 <= b@.len(),
    ensures
        r == le_word(b@, off as int),
{
    let r: u64 = b[off] as u64 + 0x100 * (b[off + 1] as u64) + 0x1_0000 * (b[off + 2] as u64)
        + 0x100_0000 * (b[off + 3] as u64) + 0x1_0000_0000 * (b[off + 4] as u64) + 0x100_0000_0000
        * (b[off + 5] as u64) + 0x1_0000_0000_0000 * (b[off + 6] as u64) + 0x100_0000_0000_0000
        * (b[off + 7] as u64);
    r
}

/// The four little-endian words of a 32-byte array, lowest first.
pub fn to_le_words(b: &[u8; 32]) -> (r: [u64; 4])
    ensures
        r@ == le_words(b@),
{
    let s = b.as_slice();
    let r = [read_le_word(s, 0), read_le_word(s, 8), read_le_word(s, 16), read_le_word(s, 24)];
    assert(r@ =~= le_words(b@));
    r
}

/// 256 to the power `n`.
pub open spec fn pow256(n: nat) -> nat
    decreases n,
{
    if n == 0 {
        1
    } else {
        256 * pow256((n - 1) as nat)
    }
}

/// The little-endian value of two byte strings one after the other.
pub proof fn lemma_le_value_append(a: Seq<u8>, b: Seq<u8>)
    ensures
        le_value(a + b) == le_value(a) + pow256(a.len()) * le_value(b),
    decreases a.len(),
{
    if a.len() == 0 {
        assert(a + b =~= b);
        assert(le_value(a) == 0);
        assert(pow256(0) == 1);
        assert(1 * le_value(b) == le_value(b));
    } else {
        assert((a + b).drop_first() =~= a.drop_first() + b);
        assert((a + b)[0] == a[0]);
        lemma_le_value_append(a.drop_first(), b);
        let x = le_value(a.drop_first());
        let p = pow256((a.len() - 1) as nat);
        let y = le_value(b);
        assert(256 * (x + p * y) == 256 * x + (256 * p) * y) by (nonlinear_arith);
        assert(le_value(a + b) == a[0] + 256 * le_value(a.drop_first() + b));
        assert(le_value(a) == a[0] + 256 * x);
        assert(pow256(a.len()) == 256 * p);
    }
}

/// Eight bytes read little-endian give the word `le_word` names.
pub proof fn lemma_le_value_word(b: Seq<u8>, off: int)
    requires
        0 <= off,
        off + 8 <= b.len(),
    ensures
        le_value(b.subrange(off, off + 8)) == le_word(b, off),
{
    let s = b.subrange(off, off + 8);
    assert(s.subrange(8, 8) =~= Seq::<u8>::empty());
    assert(s.subrange(7, 8).drop_first() =~= s.subrange(8, 8));
    assert(s.subrange(6, 8).drop_first() =~= s.subrange(7, 8));
    assert(s.subrange(5, 8).drop_first() =~= s.subrange(6, 8));
    assert(s.subrange(4, 8).drop_first() =~= s.subrange(5, 8));
    assert(s.subrange(3, 8).drop_first() =~= s.subrange(4, 8));
    assert(s.subrange(2, 8).drop_first() =~= s.subrange(3, 8));
    assert(s.subrange(1, 8).drop_first() =~= s.subrange(2, 8));
    assert(s.drop_first() =~= s.subrange(1, 8));
    assert(le_value(s.subrange(8, 8)) == 0);
    assert(le_value(s.subrange(7, 8)) == b[off + 7]);
    assert(le_value(s.subrange(6, 8)) == b[off + 6] + 256 * b[off + 7]);
    assert(le_value(s.subrange(5, 8)) == b[off + 5] + 256 * (b[off + 6] + 256 * b[off + 7]));
    assert(le_value(s.subrange(4, 8)) == b[off + 4] + 256 * le_value(s.subrange(5, 8)));
    assert(le_value(s.subrange(3, 8)) == b[off + 3] + 256 * le_value(s.subrange(4, 8)));
    assert(le_value(s.subrange(2, 8)) == b[off + 2] + 256 * le_value(s.subrange(3, 8)));
    assert(le_value(s.subrange(1, 8)) == b[off + 1] + 256 * le_value(s.subrange(2, 8)));
    assert(le_value(s) == b[off] + 256 * le_value(s.subrange(1, 8)));
}

} // verus!
