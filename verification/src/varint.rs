use vstd::prelude::*;
use crate::bytes::ParseError;

verus! {

/// The number of leading bytes of `s` that carry the continuation bit
/// (0x80), counting at most `cap` of them.
pub open spec fn continued_prefix(s: Seq<u8>, cap: nat) -> nat
    decreases cap,
{
    if cap == 0 || s.len() == 0 || s[0] & 0x80 != 0x80 {
        0
    } else {
        1 + continued_prefix(s.drop_first(), (cap - 1) as nat)
    }
}

/// The 64 bits that the 7-bit groups of `bs` make, the first group the
/// least significant; groups beyond the 64th bit are cut off.
pub open spec fn group_bits(bs: Seq<u8>) -> u64
    decreases bs.len(),
{
    if bs.len() == 0 {
        0
    } else {
        ((bs[0] & 0x7f) as u64) | (group_bits(bs.drop_first()) << 7u64)
    }
}

/// A variable-width value at the start of `s`: up to nine bytes with the
/// continuation bit, then one more byte. The result is the value and the
/// number of bytes it takes, or `None` where the input ends too early.
pub open spec fn spec_varint(s: Seq<u8>) -> Option<(i64, nat)> {
    let k = continued_prefix(s, 9);
    if k < s.len() {
        Some(((group_bits(s.take((k + 1) as int))) as i64, k + 1))
    } else {
        None
    }
}

/// The bytes that encode `x`: its 7-bit groups, least significant first,
/// each but the last with the continuation bit set.
pub open spec fn spec_write_varint(x: u64) -> Seq<u8>
    decreases x,
{
    if x >> 7u64 == 0 {
        seq![(x & 0x7f) as u8]
    } else {
        proof {
            assert(x >> 7u64 != 0 ==> x >> 7u64 < x) by (bit_vector);
        }
        seq![((x & 0x7f) as u8) | 0x80] + spec_write_varint(x >> 7u64)
    }
}

/// A variable-width value takes at least one byte and no more than the input holds.
pub proof fn lemma_varint_bounds(s: Seq<u8>)
    ensures
        spec_varint(s) matches Some((v, n)) ==> 1 <= n <= s.len() && n <= 10,
{
    lemma_continued_prefix_le(s, 9);
}

proof fn lemma_continued_prefix_le(s: Seq<u8>, cap: nat)
    ensures
        continued_prefix(s, cap) <= cap,
        continued_prefix(s, cap) <= s.len(),
    decreases cap,
{
    if cap > 0 && s.len() > 0 && s[0] & 0x80 == 0x80 {
        lemma_continued_prefix_le(s.drop_first(), (cap - 1) as nat);
    }
}

proof fn lemma_continued_prefix_exact(s: Seq<u8>, cap: nat, k: nat)
    requires
        k <= cap,
        k <= s.len(),
        forall|j: int| 0 <= j < k ==> #[trigger] s[j] & 0x80 == 0x80,
        k == cap || k == s.len() || s[k as int] & 0x80 != 0x80,
    ensures
        continued_prefix(s, cap) == k,
    decreases k,
{
    if k > 0 {
        assert(s[0] & 0x80 == 0x80);
        let t = s.drop_first();
        assert forall|j: int| 0 <= j < k - 1 implies #[trigger] t[j] & 0x80 == 0x80 by {
            assert(t[j] == s[j + 1]);
        }
        if k < s.len() {
            assert(t[k - 1] == s[k as int]);
        }
        lemma_continued_prefix_exact(t, (cap - 1) as nat, (k - 1) as nat);
    }
}

/// Reads a variable-width value at `pos`: the value and the number of bytes
/// that it takes.
pub fn variable_width_value_parser(input: &[u8], pos: usize) -> (r: Result<(i64, usize), ParseError>)
    requires
        pos <= input@.len(),
    ensures
        match spec_varint(input@.skip(pos as int)) {
            Some((v, n)) => r == Ok::<(i64, usize), ParseError>((v, n as usize)),
            None => r == Err::<(i64, usize), ParseError>(ParseError::Incomplete),
        },
{
    let ghost s = input@.skip(pos as int);
    let len = input.len();
    let mut k: usize = 0;
    while k < 9 && pos + k < len && input[pos + k] & 0x80 == 0x80
        invariant
            k <= 9,
            pos + k <= len,
            len == input@.len(),
            s == input@.skip(pos as int),
            forall|j: int| 0 <= j < k ==> #[trigger] s[j] & 0x80 == 0x80,
        decreases 9 - k,
    {
        k = k + 1;
    }
    proof {
        if pos + k < len {
            assert(s[k as int] == input@[pos + k]);
        }
        lemma_continued_prefix_exact(s, 9, k as nat);
    }
    if pos + k >= len {
        return Err(ParseError::Incomplete);
    }
    let n = k + 1;
    let ghost t = s.take(n as int);
    let mut acc: u64 = 0;
    let mut i: usize = n;
    assert(t.subrange(n as int, n as int) =~= Seq::<u8>::empty());
    while i > 0
        invariant
            i <= n,
            n == k + 1,
            pos + n <= len,
            len == input@.len(),
            s == input@.skip(pos as int),
            t == s.take(n as int),
            acc == group_bits(t.subrange(i as int, n as int)),
        decreases i,
    {
        i = i - 1;
        let b = input[pos + i];
        proof {
            let u = t.subrange(i as int, n as int);
            assert(u.drop_first() =~= t.subrange(i + 1, n as int));
            assert(u[0] == b);
        }
        acc = ((b & 0x7f) as u64) | (acc << 7u64);
    }
    assert(t.subrange(0, n as int) =~= t);
    Ok((acc as i64, n))
}

/// Encodes `value` as a variable-width value: the 64 bits of its two's
/// complement in 7-bit groups.
pub fn write_variable_width_value(value: i64) -> (r: Vec<u8>)
    ensures
        r@ == spec_write_varint(value as u64),
        1 <= r@.len() <= 10,
{
    let mut result: Vec<u8> = Vec::new();
    let mut x: u64 = value as u64;
    loop
        invariant_except_break
            result@ + spec_write_varint(x) == spec_write_varint(value as u64),
        ensures
            result@ == spec_write_varint(value as u64),
        decreases x,
    {
        let byte = (x & 0x7F) as u8;
        let ghost old_x = x;
        x = x >> 7u64;
        if x == 0 {
            result.push(byte);
            assert(result@ =~= spec_write_varint(value as u64));
            break;
        }
        proof {
            assert(old_x >> 7u64 != 0 ==> old_x >> 7u64 < old_x) by (bit_vector);
            assert(spec_write_varint(old_x) == seq![byte | 0x80] + spec_write_varint(x));
        }
        result.push(byte | 0x80);
        assert(result@ + spec_write_varint(x) =~= spec_write_varint(value as u64));
    }
    proof {
        let v = value as u64;
        assert(v >> 63u64 < 128) by (bit_vector);
        lemma_write_len(v, 9);
    }
    result
}

proof fn lemma_write_len(x: u64, n: nat)
    requires
        n <= 9,
        x >> ((7 * n) as u64) < 128,
    ensures
        1 <= spec_write_varint(x).len() <= n + 1,
    decreases n,
{
    if x >> 7u64 != 0 {
        if n == 0 {
            assert(x >> 0u64 < 128 ==> x >> 7u64 == 0) by (bit_vector);
        } else {
            let s = (7 * (n - 1)) as u64;
            assert(s + 7 < 64 ==> (x >> 7u64) >> s == x >> (s + 7)) by (bit_vector);
            assert((7 * n) as u64 == s + 7);
            lemma_write_len(x >> 7u64, (n - 1) as nat);
        }
    }
}

proof fn lemma_write_decodes(x: u64, rest: Seq<u8>)
    ensures
        continued_prefix(spec_write_varint(x) + rest, (spec_write_varint(x).len() - 1) as nat)
            == spec_write_varint(x).len() - 1,
        group_bits(spec_write_varint(x)) == x,
    decreases x,
{
    let e = spec_write_varint(x);
    let t = e + rest;
    if x >> 7u64 == 0 {
        let b = (x & 0x7f) as u8;
        assert(e == seq![b]);
        assert(e.drop_first() =~= Seq::<u8>::empty());
        assert(group_bits(e.drop_first()) == 0);
        assert(e[0] == b);
        assert(x >> 7u64 == 0 ==> (((x & 0x7f) as u8) & 0x7f) as u64 | (0u64 << 7u64) == x) by (bit_vector);
    } else {
        assert(x >> 7u64 != 0 ==> x >> 7u64 < x) by (bit_vector);
        let y = x >> 7u64;
        let b = ((x & 0x7f) as u8) | 0x80;
        let e2 = spec_write_varint(y);
        lemma_write_decodes(y, rest);
        assert(e == seq![b] + e2);
        assert(e.drop_first() =~= e2);
        assert(t.drop_first() =~= e2 + rest);
        assert(t[0] == b);
        assert(b & 0x80 == 0x80) by (bit_vector)
            requires b == ((x & 0x7f) as u8) | 0x80;
        let g = group_bits(e2);
        assert(g == y);
        assert(e[0] == b);
        assert(group_bits(e) == ((b & 0x7f) as u64) | (g << 7u64));
        assert((((((x & 0x7f) as u8) | 0x80) & 0x7f) as u64) | ((x >> 7u64) << 7u64) == x) by (bit_vector);
    }
}

proof fn lemma_last_byte(x: u64)
    ensures
        spec_write_varint(x)[spec_write_varint(x).len() - 1] & 0x80 != 0x80,
    decreases x,
{
    if x >> 7u64 == 0 {
        assert(((x & 0x7f) as u8) & 0x80 != 0x80) by (bit_vector);
    } else {
        assert(x >> 7u64 != 0 ==> x >> 7u64 < x) by (bit_vector);
        lemma_last_byte(x >> 7u64);
        let e2 = spec_write_varint(x >> 7u64);
        let b = ((x & 0x7f) as u8) | 0x80;
        assert(spec_write_varint(x) == seq![b] + e2);
    }
}

proof fn lemma_prefix_of_encoding(x: u64, rest: Seq<u8>, cap: nat)
    requires
        spec_write_varint(x).len() - 1 <= cap,
    ensures
        continued_prefix(spec_write_varint(x) + rest, cap) == spec_write_varint(x).len() - 1,
    decreases x,
{
    let e = spec_write_varint(x);
    let t = e + rest;
    if x >> 7u64 == 0 {
        lemma_last_byte(x);
        assert(t[0] == e[0]);
    } else {
        assert(x >> 7u64 != 0 ==> x >> 7u64 < x) by (bit_vector);
        let y = x >> 7u64;
        let b = ((x & 0x7f) as u8) | 0x80;
        let e2 = spec_write_varint(y);
        assert(e == seq![b] + e2);
        assert(t.drop_first() =~= e2 + rest);
        assert(t[0] == b);
        assert(b & 0x80 == 0x80) by (bit_vector)
            requires b == ((x & 0x7f) as u8) | 0x80;
        lemma_prefix_of_encoding(y, rest, (cap - 1) as nat);
    }
}

/// Reading back what `write_variable_width_value` wrote gives the value and
/// the number of bytes written, whatever bytes follow the encoding.
pub proof fn law_varint_roundtrip(value: i64, rest: Seq<u8>)
    ensures
        spec_varint(spec_write_varint(value as u64) + rest)
            == Some((value, spec_write_varint(value as u64).len())),
{
    let x = value as u64;
    let e = spec_write_varint(x);
    let t = e + rest;
    assert(x >> 63u64 < 128) by (bit_vector);
    lemma_write_len(x, 9);
    lemma_prefix_of_encoding(x, rest, 9);
    lemma_write_decodes(x, rest);
    assert(t.take(e.len() as int) =~= e);
    assert((x as i64) == value) by (bit_vector)
        requires x == value as u64;
}

/// The number that the 7-bit groups of `bs` make, the first group the least
/// significant.
pub open spec fn groups_value(bs: Seq<u8>) -> nat
    decreases bs.len(),
{
    if bs.len() == 0 {
        0
    } else {
        (bs[0] & 0x7f) as nat + 128 * groups_value(bs.drop_first())
    }
}

proof fn lemma_write_bytes(x: u64)
    ensures
        ({
            let e = spec_write_varint(x);
            &&& forall|j: int| 0 <= j < e.len() - 1 ==> #[trigger] e[j] & 0x80 == 0x80
            &&& e[e.len() - 1] < 0x80
            &&& groups_value(e) == x
            &&& x != 0 ==> e[e.len() - 1] != 0
        }),
    decreases x,
{
    let e = spec_write_varint(x);
    if x >> 7u64 == 0 {
        let b = (x & 0x7f) as u8;
        assert(x >> 7u64 == 0 ==> ((x & 0x7f) as u8) as u64 == x && ((x & 0x7f) as u8) & 0x7f == (x & 0x7f) as u8 && x < 128) by (bit_vector);
        assert(e[0] == b);
        assert(e.drop_first() =~= Seq::<u8>::empty());
        assert(groups_value(e.drop_first()) == 0);
        assert(groups_value(e) == (b & 0x7f) as nat + 128 * groups_value(e.drop_first()));
    } else {
        assert(x >> 7u64 != 0 ==> x >> 7u64 < x) by (bit_vector);
        let y = x >> 7u64;
        let b = ((x & 0x7f) as u8) | 0x80;
        let e2 = spec_write_varint(y);
        lemma_write_bytes(y);
        assert(e == seq![b] + e2);
        assert(e.drop_first() =~= e2);
        assert(b & 0x80 == 0x80) by (bit_vector)
            requires b == ((x & 0x7f) as u8) | 0x80;
        assert forall|j: int| 0 <= j < e.len() - 1 implies #[trigger] e[j] & 0x80 == 0x80 by {
            if j > 0 {
                assert(e[j] == e2[j - 1]);
            }
        }
        assert(e[e.len() - 1] == e2[e2.len() - 1]);
        assert(groups_value(e) == (b & 0x7f) as nat + 128 * groups_value(e2));
        assert((b & 0x7f) as nat + 128 * (y as nat) == x as nat) by (bit_vector)
            requires b == ((x & 0x7f) as u8) | 0x80, y == x >> 7u64;
    }
}

/// The bytes written for a value: at most ten; each but the last has the
/// continuation bit (0x80) and the last does not; their 7-bit groups, the
/// first the least significant, make the 64 bits of the value; and the last
/// is not 0 unless it is the only one, so no shorter encoding exists.
pub proof fn law_varint_encoding(value: i64)
    ensures
        ({
            let e = spec_write_varint(value as u64);
            &&& 1 <= e.len() <= 10
            &&& forall|j: int| 0 <= j < e.len() - 1 ==> #[trigger] e[j] & 0x80 == 0x80
            &&& e[e.len() - 1] < 0x80
            &&& groups_value(e) == value as u64
            &&& e.len() == 1 || e[e.len() - 1] != 0
        }),
{
    let x = value as u64;
    assert(x >> 63u64 < 128) by (bit_vector);
    lemma_write_len(x, 9);
    lemma_write_bytes(x);
    let e = spec_write_varint(x);
    if x == 0 {
        assert(0u64 >> 7u64 == 0) by (bit_vector);
        assert(e.len() == 1);
    }
}

} // verus!
