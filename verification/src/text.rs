//! Character-level text operations on `Vec<char>`: trimming, prefixes,
//! splitting, replacement, number parsing and formatting.

use vstd::prelude::*;

verus! {

broadcast use vstd::string::group_string_axioms;

/// The characters of `s`, in order.
pub fn chars_of(s: &str) -> (r: Vec<char>)
    ensures
        r@ == s@,
{
    let mut out: Vec<char> = Vec::new();
    for c in it: s.chars()
        invariant
            out@ == it.seq().take(it.index() as int),
    {
        out.push(c);
    }
    out
}

/// Calls `String::push`; the contract states what its documentation says:
/// the character is appended.
#[verifier::external_body]
fn push_char(s: &mut String, c: char)
    ensures
        final(s)@ == old(s)@.push(c),
{
    s.push(c);
}

/// The string made of the characters `cs`.
pub fn string_from(cs: &[char]) -> (r: String)
    ensures
        r@ == cs@,
{
    let mut s = String::new();
    for i in 0..cs.len()
        invariant
            s@ == cs@.take(i as int),
    {
        push_char(&mut s, cs[i]);
        assert(cs@.take(i + 1) =~= cs@.take(i as int).push(cs@[i as int]));
    }
    assert(cs@.take(cs@.len() as int) =~= cs@);
    s
}


/// The characters `s[a..b]`.
pub fn subrange(s: &[char], a: usize, b: usize) -> (r: Vec<char>)
    requires
        a <= b <= s@.len(),
    ensures
        r@ == s@.subrange(a as int, b as int),
{
    let mut out: Vec<char> = Vec::new();
    let mut i = a;
    while i < b
        invariant
            a <= i <= b <= s@.len(),
            out@ == s@.subrange(a as int, i as int),
        decreases b - i,
    {
        out.push(s[i]);
        assert(s@.subrange(a as int, i + 1) =~= s@.subrange(a as int, i as int).push(s@[i as int]));
        i = i + 1;
    }
    out
}

/// Unicode white space, as `char::is_whitespace` classifies it.
pub open spec fn is_ws(c: char) -> bool {
    let u = c as u32;
    (0x9 <= u <= 0xD) || u == 0x20 || u == 0x85 || u == 0xA0 || u == 0x1680 || (0x2000 <= u
        <= 0x200A) || u == 0x2028 || u == 0x2029 || u == 0x202F || u == 0x205F || u == 0x3000
}

/// Whether `c` is Unicode white space.
pub fn is_whitespace(c: char) -> (r: bool)
    ensures
        r == is_ws(c),
{
    let u = c as u32;
    (0x9 <= u && u <= 0xD) || u == 0x20 || u == 0x85 || u == 0xA0 || u == 0x1680 || (0x2000 <= u
        && u <= 0x200A) || u == 0x2028 || u == 0x2029 || u == 0x202F || u == 0x205F || u == 0x3000
}

/// `s` without its leading white space.
pub open spec fn trim_start(s: Seq<char>) -> Seq<char>
    decreases s.len(),
{
    if s.len() > 0 && is_ws(s[0]) {
        trim_start(s.drop_first())
    } else {
        s
    }
}

/// `s` without its trailing white space.
pub open spec fn trim_end(s: Seq<char>) -> Seq<char>
    decreases s.len(),
{
    if s.len() > 0 && is_ws(s.last()) {
        trim_end(s.drop_last())
    } else {
        s
    }
}

/// `s` without leading and trailing white space, as `str::trim` gives it.
pub open spec fn trim(s: Seq<char>) -> Seq<char> {
    trim_end(trim_start(s))
}

/// The bounds of `s` without leading and trailing white space.
pub fn trim_bounds(s: &[char]) -> (r: (usize, usize))
    ensures
        r.0 <= r.1 <= s@.len(),
        s@.subrange(r.0 as int, r.1 as int) == trim(s@),
{
    let mut a: usize = 0;
    assert(s@.subrange(0, s@.len() as int) =~= s@);
    while a < s.len() && is_whitespace(s[a])
        invariant
            a <= s@.len(),
            trim_start(s@) == trim_start(s@.subrange(a as int, s@.len() as int)),
        decreases s@.len() - a,
    {
        assert(s@.subrange(a as int, s@.len() as int).drop_first() =~= s@.subrange(
            a + 1,
            s@.len() as int,
        ));
        a = a + 1;
    }
    let ghost t = s@.subrange(a as int, s@.len() as int);
    assert(trim_start(t) == t);
    let mut b: usize = s.len();
    while b > a && is_whitespace(s[b - 1])
        invariant
            a <= b <= s@.len(),
            trim_end(t) == trim_end(s@.subrange(a as int, b as int)),
            t == s@.subrange(a as int, s@.len() as int),
        decreases b,
    {
        assert(s@.subrange(a as int, b as int).drop_last() =~= s@.subrange(a as int, b - 1));
        b = b - 1;
    }
    assert(trim_end(s@.subrange(a as int, b as int)) == s@.subrange(a as int, b as int));
    (a, b)
}

/// `s` without leading and trailing white space.
pub fn trim_chars(s: &[char]) -> (r: Vec<char>)
    ensures
        r@ == trim(s@),
{
    let (a, b) = trim_bounds(s);
    subrange(s, a, b)
}

/// Whether `s` begins with `p`.
pub open spec fn starts_with(s: Seq<char>, p: Seq<char>) -> bool {
    p.len() <= s.len() && s.subrange(0, p.len() as int) == p
}

/// Whether `s` begins with `p`.
pub fn has_prefix(s: &[char], p: &[char]) -> (r: bool)
    ensures
        r == starts_with(s@, p@),
{
    if p.len() > s.len() {
        return false;
    }
    for i in 0..p.len()
        invariant
            p@.len() <= s@.len(),
            forall|k: int| 0 <= k < i ==> s@[k] == p@[k],
    {
        if s[i] != p[i] {
            assert(s@.subrange(0, p@.len() as int)[i as int] != p@[i as int]);
            return false;
        }
    }
    assert(s@.subrange(0, p@.len() as int) =~= p@);
    true
}

/// `s` with every leading repetition of `p` removed, as `str::trim_start_matches` gives it.
pub open spec fn trim_start_matches(s: Seq<char>, p: Seq<char>) -> Seq<char>
    decreases s.len(),
{
    if p.len() > 0 && starts_with(s, p) {
        trim_start_matches(s.subrange(p.len() as int, s.len() as int), p)
    } else {
        s
    }
}

/// `s` with every leading repetition of `p` removed.
pub fn strip_all_prefixes(s: &[char], p: &[char]) -> (r: Vec<char>)
    ensures
        r@ == trim_start_matches(s@, p@),
{
    let mut cur: Vec<char> = subrange(s, 0, s.len());
    assert(cur@ =~= s@);
    while p.len() > 0 && has_prefix(cur.as_slice(), p)
        invariant
            trim_start_matches(cur@, p@) == trim_start_matches(s@, p@),
        decreases cur@.len(),
    {
        cur = subrange(cur.as_slice(), p.len(), cur.len());
    }
    cur
}

/// The index of the last `c` in `s`, if any.
pub open spec fn last_index_of(s: Seq<char>, c: char) -> Option<int>
    decreases s.len(),
{
    if s.len() == 0 {
        None
    } else if s.last() == c {
        Some(s.len() - 1)
    } else {
        last_index_of(s.drop_last(), c)
    }
}

/// The index of the last `c` in `s`, if any.
pub fn find_last(s: &[char], c: char) -> (r: Option<usize>)
    ensures
        r matches Some(i) ==> last_index_of(s@, c) == Some(i as int) && i < s@.len() && s@[i as int]
            == c,
        r is None ==> last_index_of(s@, c) is None,
{
    let mut i = s.len();
    assert(s@.subrange(0, s@.len() as int) =~= s@);
    while i > 0
        invariant
            i <= s@.len(),
            last_index_of(s@, c) == last_index_of(s@.subrange(0, i as int), c),
        decreases i,
    {
        assert(s@.subrange(0, i as int).drop_last() =~= s@.subrange(0, i - 1));
        if s[i - 1] == c {
            return Some(i - 1);
        }
        i = i - 1;
    }
    None
}

/// `s` with every occurrence of `pat`, scanned left to right without
/// overlap, replaced by `rep`, as `str::replace` gives it for a non-empty
/// pattern.
pub open spec fn replace_all(s: Seq<char>, pat: Seq<char>, rep: Seq<char>) -> Seq<char>
    decreases s.len(),
{
    if s.len() == 0 || pat.len() == 0 {
        s
    } else if starts_with(s, pat) {
        rep + replace_all(s.subrange(pat.len() as int, s.len() as int), pat, rep)
    } else {
        seq![s[0]] + replace_all(s.drop_first(), pat, rep)
    }
}

/// `s` with every occurrence of `pat` replaced by `rep`.
pub fn replace(s: &[char], pat: &[char], rep: &[char]) -> (r: Vec<char>)
    requires
        pat@.len() > 0,
    ensures
        r@ == replace_all(s@, pat@, rep@),
{
    let mut out: Vec<char> = Vec::new();
    let mut rest: Vec<char> = subrange(s, 0, s.len());
    assert(rest@ =~= s@);
    while rest.len() > 0
        invariant
            pat@.len() > 0,
            out@ + replace_all(rest@, pat@, rep@) == replace_all(s@, pat@, rep@),
        decreases rest@.len(),
    {
        if has_prefix(rest.as_slice(), pat) {
            let ghost before = out@;
            for k in 0..rep.len()
                invariant
                    out@ == before + rep@.take(k as int),
            {
                out.push(rep[k]);
                assert(rep@.take(k + 1) =~= rep@.take(k as int).push(rep@[k as int]));
            }
            assert(rep@.take(rep@.len() as int) =~= rep@);
            assert(out@ + replace_all(rest@.subrange(pat@.len() as int, rest@.len() as int), pat@, rep@)
                =~= before + replace_all(rest@, pat@, rep@));
            rest = subrange(rest.as_slice(), pat.len(), rest.len());
        } else {
            let ghost before = out@;
            out.push(rest[0]);
            assert(out@ + replace_all(rest@.drop_first(), pat@, rep@) =~= before + replace_all(rest@, pat@, rep@));
            let next = subrange(rest.as_slice(), 1, rest.len());
            assert(next@ =~= rest@.drop_first());
            rest = next;
        }
    }
    assert(out@ + replace_all(rest@, pat@, rep@) =~= out@);
    out
}

/// The value of `c` as a digit in base `radix` (at most 36), as
/// `char::to_digit` gives it: '0'–'9', then 'a'–'z' or 'A'–'Z' from 10.
pub open spec fn digit_value(c: char, radix: nat) -> Option<nat> {
    let u = c as u32;
    let d: int = if 0x30 <= u <= 0x39 {
        u - 0x30
    } else if 0x61 <= u <= 0x7a {
        u - 0x61 + 10
    } else if 0x41 <= u <= 0x5a {
        u - 0x41 + 10
    } else {
        36
    };
    if d < radix {
        Some(d as nat)
    } else {
        None
    }
}

/// The value of `c` as a digit in base `radix`.
pub fn to_digit(c: char, radix: u32) -> (r: Option<u32>)
    requires
        2 <= radix <= 36,
    ensures
        r matches Some(d) ==> digit_value(c, radix as nat) == Some(d as nat),
        r is None ==> digit_value(c, radix as nat) is None,
{
    let u = c as u32;
    let d: u32 = if 0x30 <= u && u <= 0x39 {
        u - 0x30
    } else if 0x61 <= u && u <= 0x7a {
        u - 0x61 + 10
    } else if 0x41 <= u && u <= 0x5a {
        u - 0x41 + 10
    } else {
        36
    };
    if d < radix {
        Some(d)
    } else {
        None
    }
}

/// Every character of `d` is a digit in base `radix`.
pub open spec fn all_digits(d: Seq<char>, radix: nat) -> bool {
    forall|i: int| 0 <= i < d.len() ==> (#[trigger] digit_value(d[i], radix)) is Some
}

/// The number that the digits `d` write in base `radix`, most significant first.
pub open spec fn digits_value(d: Seq<char>, radix: nat) -> nat
    decreases d.len(),
{
    if d.len() == 0 {
        0
    } else {
        digits_value(d.drop_last(), radix) * radix + digit_value(d.last(), radix)->0
    }
}

/// `s` without one leading '+'.
pub open spec fn unsigned_digits(s: Seq<char>) -> Seq<char> {
    if s.len() > 0 && s[0] == '+' {
        s.drop_first()
    } else {
        s
    }
}

/// What `from_str_radix` of an unsigned integer type whose largest value is
/// `max` gives for `s`: an optional '+', then at least one digit in base
/// `radix`, and a value no larger than `max`.
pub open spec fn parse_unsigned(s: Seq<char>, radix: nat, max: nat) -> Option<nat> {
    let d = unsigned_digits(s);
    if d.len() > 0 && all_digits(d, radix) && digits_value(d, radix) <= max {
        Some(digits_value(d, radix))
    } else {
        None
    }
}

proof fn lemma_digits_value_prefix(d: Seq<char>, radix: nat, k: int)
    requires
        radix >= 1,
        0 <= k <= d.len(),
    ensures
        digits_value(d.take(k), radix) <= digits_value(d, radix),
    decreases d.len(),
{
    if k < d.len() {
        assert(d.drop_last().take(k) =~= d.take(k));
        lemma_digits_value_prefix(d.drop_last(), radix, k);
        let x = digits_value(d.drop_last(), radix);
        assert(x * radix >= x) by (nonlinear_arith)
            requires
                radix >= 1,
        ;
    } else {
        assert(d.take(k) =~= d);
    }
}

/// Parses `s` as `from_str_radix` does for an unsigned type whose largest
/// value is `max`.
pub fn parse_unsigned_chars(s: &[char], radix: u32, max: u64) -> (r: Option<u64>)
    requires
        2 <= radix <= 36,
    ensures
        r matches Some(v) ==> parse_unsigned(s@, radix as nat, max as nat) == Some(v as nat),
        r is None ==> parse_unsigned(s@, radix as nat, max as nat) is None,
{
    let start: usize = if s.len() > 0 && s[0] == '+' {
        1
    } else {
        0
    };
    let ghost d = unsigned_digits(s@);
    assert(d =~= s@.subrange(start as int, s@.len() as int));
    if start == s.len() {
        return None;
    }
    let mut acc: u64 = 0;
    let mut i = start;
    assert(d.take(0) =~= Seq::<char>::empty());
    while i < s.len()
        invariant
            start <= i <= s@.len(),
            d == s@.subrange(start as int, s@.len() as int),
            d == unsigned_digits(s@),
            2 <= radix <= 36,
            acc as nat == digits_value(d.take(i - start), radix as nat),
            acc <= max,
            all_digits(d.take(i - start), radix as nat),
        decreases s@.len() - i,
    {
        let k: usize = i - start;
        assert(d.take(k + 1).drop_last() =~= d.take(k as int));
        assert(d.take(k + 1).last() == s@[i as int]);
        match to_digit(s[i], radix) {
            None => {
                assert(d[k as int] == s@[i as int]);
                assert(digit_value(d[k as int], radix as nat) is None);
                assert(!all_digits(d, radix as nat));
                return None;
            },
            Some(dv) => {
                assert((acc as int) * (radix as int) <= 0xFFFF_FFFF_FFFF_FFFF * 36) by (nonlinear_arith)
                    requires
                        acc <= 0xFFFF_FFFF_FFFF_FFFFu64,
                        radix <= 36,
                ;
                let prod: u128 = (acc as u128) * (radix as u128);
                let next: u128 = prod + dv as u128;
                assert(next == digits_value(d.take(k + 1), radix as nat));
                if next > max as u128 {
                    proof {
                        lemma_digits_value_prefix(d, radix as nat, k + 1);
                    }
                    return None;
                }
                acc = next as u64;
                assert(all_digits(d.take(k + 1), radix as nat)) by {
                    assert forall|j: int| 0 <= j < k + 1 implies (#[trigger] digit_value(
                        d.take(k + 1)[j],
                        radix as nat,
                    )) is Some by {
                        if j < k {
                            assert(d.take(k + 1)[j] == d.take(k as int)[j]);
                        }
                    }
                }
            },
        }
        i = i + 1;
    }
    assert(d.take(d.len() as int) =~= d);
    Some(acc)
}

/// The character of a decimal digit.
pub open spec fn decimal_digit(d: nat) -> char {
    (48 + d) as char
}

/// `n` in decimal, without leading zeros, as `u64::to_string` gives it.
pub open spec fn decimal(n: nat) -> Seq<char>
    decreases n,
{
    if n < 10 {
        seq![decimal_digit(n)]
    } else {
        decimal(n / 10) + seq![decimal_digit(n % 10)]
    }
}

/// `n` in decimal.
pub fn decimal_chars(n: u64) -> (r: Vec<char>)
    ensures
        r@ == decimal(n as nat),
    decreases n,
{
    let d = ((n % 10) as u8 + 48u8) as char;
    if n < 10 {
        let mut v: Vec<char> = Vec::new();
        v.push(d);
        assert(v@ =~= decimal(n as nat));
        v
    } else {
        let mut v = decimal_chars(n / 10);
        v.push(d);
        assert(v@ =~= decimal(n as nat));
        v
    }
}

/// The character of a lower-case hexadecimal digit.
pub open spec fn hex_digit_lower(d: nat) -> char {
    if d < 10 {
        (48 + d) as char
    } else {
        (87 + d) as char
    }
}

/// `n` as sixteen lower-case hexadecimal digits, zero-padded, as
/// `format!("{:016x}", n)` gives it.
pub open spec fn hex16(n: u64) -> Seq<char> {
    Seq::new(16, |i: int| hex_digit_lower(((n >> (60 - 4 * i) as u64) & 0xF) as nat))
}

/// `n` as sixteen lower-case hexadecimal digits.
pub fn hex16_chars(n: u64) -> (r: Vec<char>)
    ensures
        r@ == hex16(n),
{
    let mut v: Vec<char> = Vec::new();
    for i in 0..16u64
        invariant
            v@ == hex16(n).take(i as int),
    {
        let sh: u64 = 60 - 4 * i;
        let nib: u64 = (n >> sh) & 0xF;
        assert(nib < 16) by (bit_vector)
            requires
                nib == (n >> sh) & 0xF,
        ;
        let c = if nib < 10 {
            (nib as u8 + 48u8) as char
        } else {
            (nib as u8 + 87u8) as char
        };
        v.push(c);
        assert(v@ =~= hex16(n).take(i + 1));
    }
    assert(hex16(n).take(16) =~= hex16(n));
    v
}

/// Appends the characters of `s` to `v`.
pub fn append_str(v: &mut Vec<char>, s: &str)
    ensures
        final(v)@ == old(v)@ + s@,
{
    let w = chars_of(s);
    append_chars(v, &w);
}

/// Appends the characters `w` to `v`.
pub fn append_chars(v: &mut Vec<char>, w: &Vec<char>)
    ensures
        final(v)@ == old(v)@ + w@,
{
    let ghost start = v@;
    for i in 0..w.len()
        invariant
            v@ == start + w@.take(i as int),
    {
        v.push(w[i]);
        assert(w@.take(i + 1) =~= w@.take(i as int).push(w@[i as int]));
    }
    assert(w@.take(w@.len() as int) =~= w@);
}

/// Whether `a` and `b` hold the same characters.
pub fn same_text(a: &str, b: &str) -> (r: bool)
    ensures
        r == (a@ == b@),
{
    let x = chars_of(a);
    let y = chars_of(b);
    if x.len() != y.len() {
        return false;
    }
    for i in 0..x.len()
        invariant
            x@.len() == y@.len(),
            x@ == a@,
            y@ == b@,
            forall|k: int| 0 <= k < i ==> x@[k] == y@[k],
    {
        if x[i] != y[i] {
            assert(x@[i as int] != y@[i as int]);
            return false;
        }
    }
    assert(x@ =~= y@);
    true
}

/// Whether `p` occurs in `s`.
pub open spec fn contains_text(s: Seq<char>, p: Seq<char>) -> bool {
    exists|i: int| 0 <= i <= s.len() && #[trigger] starts_with(s.subrange(i, s.len() as int), p)
}

/// Whether `p` occurs in `s`.
pub fn contains(s: &[char], p: &[char]) -> (r: bool)
    ensures
        r == contains_text(s@, p@),
{
    let mut i: usize = 0;
    while i < s.len()
        invariant
            i <= s@.len(),
            forall|k: int| 0 <= k < i ==> !#[trigger] starts_with(s@.subrange(k, s@.len() as int), p@),
        decreases s@.len() - i,
    {
        let rest = subrange(s, i, s.len());
        if has_prefix(rest.as_slice(), p) {
            return true;
        }
        i = i + 1;
    }
    let rest = subrange(s, s.len(), s.len());
    has_prefix(rest.as_slice(), p)
}

proof fn lemma_decimal_digit(d: nat)
    requires
        d < 10,
    ensures
        digit_value(decimal_digit(d), 10) == Some(d),
        decimal_digit(d) != '+',
        decimal_digit(d) != ':',
        !is_ws(decimal_digit(d)),
{
}

/// Decimal text reads back as the number it was written from.
pub proof fn lemma_decimal_reads_back(n: nat)
    ensures
        decimal(n).len() > 0,
        all_digits(decimal(n), 10),
        digits_value(decimal(n), 10) == n,
        decimal(n)[0] != '+',
        !decimal(n).contains(':'),
        !is_ws(decimal(n).last()),
    decreases n,
{
    lemma_decimal_digit(n % 10);
    if n < 10 {
        assert(decimal(n).drop_last() =~= Seq::<char>::empty());
        assert(digits_value(Seq::<char>::empty(), 10) == 0);
        assert(decimal(n).last() == decimal_digit(n));
        assert(digits_value(decimal(n), 10) == digits_value(decimal(n).drop_last(), 10) * 10 + n);
    } else {
        lemma_decimal_reads_back(n / 10);
        let d = decimal(n);
        assert(d.drop_last() =~= decimal(n / 10));
        assert(d.last() == decimal_digit(n % 10));
        assert(digits_value(d, 10) == digits_value(decimal(n / 10), 10) * 10 + n % 10);
        assert((n / 10) * 10 + n % 10 == n);
        assert forall|i: int| 0 <= i < d.len() implies (#[trigger] digit_value(d[i], 10)) is Some by {
            if i < d.len() - 1 {
                assert(d[i] == decimal(n / 10)[i]);
            }
        }
        assert forall|i: int| 0 <= i < d.len() implies d[i] != ':' by {
            if i < d.len() - 1 {
                assert(d[i] == decimal(n / 10)[i]);
            }
        }
    }
}

/// Parsing the decimal text of a number no larger than `max` gives the number.
pub proof fn lemma_parse_decimal(n: nat, max: nat)
    requires
        n <= max,
    ensures
        parse_unsigned(decimal(n), 10, max) == Some(n),
{
    lemma_decimal_reads_back(n);
}

proof fn lemma_hex_digit(d: nat)
    requires
        d < 16,
    ensures
        digit_value(hex_digit_lower(d), 16) == Some(d),
        hex_digit_lower(d) != '+',
{
}

proof fn lemma_shift_step(n: u64, s: u64)
    requires
        s <= 60,
    ensures
        (n >> ((s + 4) as u64)) * 16 + ((n >> s) & 0xF) == n >> s,
{
    assert((n >> ((s + 4) as u64)) * 16 + ((n >> s) & 0xF) == n >> s) by (bit_vector)
        requires
            s <= 60,
    ;
}

proof fn lemma_hex16_prefix(n: u64, k: int)
    requires
        1 <= k <= 16,
    ensures
        digits_value(hex16(n).take(k), 16) == n >> (64 - 4 * k) as u64,
    decreases k,
{
    let h = hex16(n);
    if k == 1 {
        assert(h.take(1).drop_last() =~= Seq::<char>::empty());
        assert((n >> 60u64) & 0xF == n >> 60u64) by (bit_vector);
        assert(((n >> 60u64) & 0xF) < 16) by (bit_vector);
        lemma_hex_digit(((n >> 60u64) & 0xF) as nat);
        assert(digits_value(Seq::<char>::empty(), 16) == 0);
        assert(h.take(1).last() == h[0]);
    } else {
        lemma_hex16_prefix(n, k - 1);
        let sh: u64 = (64 - 4 * k) as u64;
        assert(h.take(k).drop_last() =~= h.take(k - 1));
        assert(h.take(k).last() == h[k - 1]);
        assert(((n >> sh) & 0xF) < 16) by (bit_vector);
        lemma_hex_digit(((n >> sh) & 0xF) as nat);
        lemma_shift_step(n, sh);
        assert((sh + 4) as u64 == (64 - 4 * (k - 1)) as u64);
    }
}

/// Sixteen hex digits read back, in base 16, as the 64-bit number they were
/// written from.
pub proof fn lemma_hex16_reads_back(n: u64)
    ensures
        parse_unsigned(hex16(n), 16, 0xFFFF_FFFF_FFFF_FFFF) == Some(n as nat),
{
    let h = hex16(n);
    assert forall|i: int| 0 <= i < 16 implies (#[trigger] digit_value(h[i], 16)) is Some by {
        let sh: u64 = (60 - 4 * i) as u64;
        assert(((n >> sh) & 0xF) < 16) by (bit_vector);
        lemma_hex_digit(((n >> sh) & 0xF) as nat);
    }
    lemma_hex16_prefix(n, 16);
    assert(h.take(16) =~= h);
    assert(n >> 0u64 == n) by (bit_vector);
    assert(((n >> 60u64) & 0xF) < 16) by (bit_vector);
    lemma_hex_digit(((n >> 60u64) & 0xF) as nat);
}

} // verus!
