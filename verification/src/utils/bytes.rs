//! Little-endian integer fields inside byte buffers.
use vstd::prelude::*;

verus! {

/// The unsigned value of the two bytes at `off`, least significant first.
pub open spec fn le16(s: Seq<u8>, off: int) -> int {
    s[off] as int + 256 * s[off + 1] as int
}

/// The unsigned value of the four bytes at `off`, least significant first.
pub open spec fn le32(s: Seq<u8>, off: int) -> int {
    le16(s, off) + 65536 * le16(s, off + 2)
}

/// The unsigned value of the eight bytes at `off`, least significant first.
pub open spec fn le64(s: Seq<u8>, off: int) -> int {
    le32(s, off) + 0x1_0000_0000 * le32(s, off + 4)
}

/// The unsigned value of the sixteen bytes at `off`, least significant first.
pub open spec fn le128(s: Seq<u8>, off: int) -> int {
    le64(s, off) + 0x1_0000_0000_0000_0000 * le64(s, off + 8)
}

/// The unsigned value of the `n` bytes at `off`, most significant first.
pub open spec fn be_bytes(s: Seq<u8>, off: int, n: nat) -> int
    decreases n,
{
    if n == 0 {
        0
    } else {
        be_bytes(s, off, (n - 1) as nat) * 256 + s[off + n - 1] as int
    }
}

/// Byte `i` (counted from the least significant) of `v`.
pub open spec fn byte_of(v: int, i: nat) -> u8 {
    ((v / pow256(i)) % 256) as u8
}

/// `256` to the power `i`.
pub open spec fn pow256(i: nat) -> int
    decreases i,
{
    if i == 0 {
        1
    } else {
        256 * pow256((i - 1) as nat)
    }
}

/// `s` with the `n` bytes at `off` replaced by the little-endian encoding of `v`.
pub open spec fn put_le(s: Seq<u8>, off: int, n: nat, v: int) -> Seq<u8> {
    Seq::new(s.len(), |i: int| if off <= i < off + n { byte_of(v, (i - off) as nat) } else { s[i] })
}

pub proof fn lemma_pow256()
    ensures
        pow256(0) == 1,
        pow256(1) == 256,
        pow256(2) == 65536,
        pow256(3) == 0x100_0000,
        pow256(4) == 0x1_0000_0000,
        pow256(5) == 0x100_0000_0000,
        pow256(6) == 0x1_0000_0000_0000,
        pow256(7) == 0x100_0000_0000_0000,
        pow256(8) == 0x1_0000_0000_0000_0000,
        pow256(16) == 0x1_0000_0000_0000_0000_0000_0000_0000_0000,
{
    reveal_with_fuel(pow256, 17);
}

/// Reads the two-byte little-endian value at `off`.
pub fn read_u16_le(buf: &[u8], off: usize) -> (r: u16)
    requires
        off + 2 <= buf.len(),
    ensures
        r == le16(buf@, off as int),
{
    buf[off] as u16 + (buf[off + 1] as u16) * 256
}

/// Reads the four-byte little-endian value at `off`.
pub fn read_u32_le(buf: &[u8], off: usize) -> (r: u32)
    requires
        off + 4 <= buf.len(),
    ensures
        r == le32(buf@, off as int),
{
    let lo = read_u16_le(buf, off) as u32;
    let hi = read_u16_le(buf, off + 2) as u32;
    assert(hi * 65536 <= 0xFFFF_0000) by (nonlinear_arith)
        requires
            hi <= 0xFFFF,
    ;
    lo + hi * 65536
}

/// Reads the eight-byte little-endian value at `off`.
pub fn read_u64_le(buf: &[u8], off: usize) -> (r: u64)
    requires
        off + 8 <= buf.len(),
    ensures
        r == le64(buf@, off as int),
{
    let lo = read_u32_le(buf, off) as u64;
    let hi = read_u32_le(buf, off + 4) as u64;
    assert(hi * 0x1_0000_0000 <= 0xFFFF_FFFF_0000_0000) by (nonlinear_arith)
        requires
            hi <= 0xFFFF_FFFF,
    ;
    lo + hi * 0x1_0000_0000
}

/// Reads the sixteen-byte little-endian value at `off`.
pub fn read_u128_le(buf: &[u8], off: usize) -> (r: u128)
    requires
        off + 16 <= buf.len(),
    ensures
        r == le128(buf@, off as int),
{
    let lo = read_u64_le(buf, off) as u128;
    let hi = read_u64_le(buf, off + 8) as u128;
    assert(hi * 0x1_0000_0000_0000_0000 <= 0xFFFF_FFFF_FFFF_FFFF_0000_0000_0000_0000)
        by (nonlinear_arith)
        requires
            hi <= 0xFFFF_FFFF_FFFF_FFFF,
    ;
    lo + hi * 0x1_0000_0000_0000_0000
}

/// Writes the `n`-byte little-endian encoding of `v` at `off`.
pub fn write_le(buf: &mut Vec<u8>, off: usize, n: usize, v: u128)
    requires
        off + n <= old(buf)@.len(),
        n <= 16,
    ensures
        final(buf)@ == put_le(old(buf)@, off as int, n as nat, v as int),
{
    let ghost orig = buf@;
    let mut rest: u128 = v;
    let mut i: usize = 0;
    while i < n
        invariant
            off + n <= buf.len(),
            buf@.len() == orig.len(),
            i <= n,
            n <= 16,
            rest == (v as int) / pow256(i as nat),
            forall|j: int|
                0 <= j < buf@.len() ==> #[trigger] buf@[j] == (if off <= j < off + i {
                    byte_of(v as int, (j - off) as nat)
                } else {
                    orig[j]
                }),
        decreases n - i,
    {
        let b: u8 = (rest % 256) as u8;
        proof {
            assert(pow256((i + 1) as nat) == 256 * pow256(i as nat));
            lemma_pow_pos(i as nat);
            lemma_div_div(v as int, pow256(i as nat), 256);
        }
        buf.set(off + i, b);
        rest = rest / 256;
        i = i + 1;
    }
    assert(buf@ =~= put_le(orig, off as int, n as nat, v as int));
}

pub proof fn lemma_pow_pos(i: nat)
    ensures
        pow256(i) > 0,
    decreases i,
{
    if i > 0 {
        lemma_pow_pos((i - 1) as nat);
    }
}

proof fn lemma_div_div(v: int, a: int, b: int)
    requires
        v >= 0,
        a > 0,
        b > 0,
    ensures
        v / (b * a) == (v / a) / b,
        v / (a * b) == (v / a) / b,
{
    vstd::arithmetic::div_mod::lemma_div_denominator(v, a, b);
    vstd::arithmetic::mul::lemma_mul_is_commutative(a, b);
}

/// Reads the `N` two-byte little-endian values at `off`.
pub fn read_u16_array<const N: usize>(input: &[u8], off: usize) -> (a: [u16; N])
    requires
        off + 2 * N <= input.len(),
    ensures
        forall|k: int| 0 <= k < N ==> #[trigger] a@[k] == le16(input@, off + 2 * k),
{
    let mut a: [u16; N] = vstd::array::array_fill_for_copy_types::<u16, N>(0);
    let mut i: usize = 0;
    while i < N
        invariant
            i <= N,
            off + 2 * N <= input.len(),
            a@.len() == N,
            forall|k: int| 0 <= k < i ==> #[trigger] a@[k] == le16(input@, off + 2 * k),
        decreases N - i,
    {
        a[i] = read_u16_le(input, off + 2 * i);
        i = i + 1;
    }
    a
}

/// The little-endian encodings of the values of `a`, one after another.
pub open spec fn u16s_le_bytes(a: Seq<u16>) -> Seq<u8> {
    Seq::new(2 * a.len(), |i: int| byte_of(a[i / 2] as int, (i % 2) as nat))
}

/// Appends the little-endian encodings of the values of an array.
pub fn push_u16_array<const N: usize>(out: &mut Vec<u8>, a: &[u16; N])
    ensures
        final(out)@ == old(out)@ + u16s_le_bytes(a@),
{
    let ghost orig = out@;
    let mut i: usize = 0;
    while i < N
        invariant
            i <= N,
            a@.len() == N,
            out@ == orig + u16s_le_bytes(a@.take(i as int)),
        decreases N - i,
    {
        let ghost before = out@;
        push_le(out, 2, a[i] as u128);
        assert(out@ =~= orig + u16s_le_bytes(a@.take(i + 1))) by {
            assert forall|j: int| 0 <= j < 2 * (i + 1) implies #[trigger] u16s_le_bytes(
                a@.take(i + 1),
            )[j] == (u16s_le_bytes(a@.take(i as int)) + le_bytes(a[i as int] as int, 2))[j] by {
                if j < 2 * i {
                    assert(a@.take(i + 1)[j / 2] == a@.take(i as int)[j / 2]);
                } else {
                    assert(j / 2 == i);
                }
            }
            assert(u16s_le_bytes(a@.take(i + 1)) =~= u16s_le_bytes(a@.take(i as int)) + le_bytes(
                a[i as int] as int,
                2,
            ));
        }
        i = i + 1;
    }
    assert(a@.take(N as int) =~= a@);
}

} // verus!

verus! {

/// The unsigned value of the `n` bytes at `off`, least significant first.
pub open spec fn le_rec(s: Seq<u8>, off: int, n: nat) -> int
    decreases n,
{
    if n == 0 {
        0
    } else {
        s[off] as int + 256 * le_rec(s, off + 1, (n - 1) as nat)
    }
}

pub proof fn lemma_le_fixed(s: Seq<u8>, off: int)
    ensures
        le16(s, off) == le_rec(s, off, 2),
        le32(s, off) == le_rec(s, off, 4),
        le64(s, off) == le_rec(s, off, 8),
        le128(s, off) == le_rec(s, off, 16),
{
    lemma_pow256();
    lemma_le_split(s, off, 2, 2);
    lemma_le_split(s, off + 2, 2, 2);
    lemma_le_split(s, off, 4, 4);
    lemma_le_split(s, off + 4, 2, 2);
    lemma_le_split(s, off + 4, 4, 4);
    lemma_le_split(s, off + 6, 2, 2);
    lemma_le_split(s, off, 8, 8);
    lemma_le_split(s, off + 8, 8, 8);
    lemma_le_split(s, off + 8, 4, 4);
    lemma_le_split(s, off + 12, 4, 4);
    lemma_le_split(s, off + 8, 2, 2);
    lemma_le_split(s, off + 10, 2, 2);
    lemma_le_split(s, off + 12, 2, 2);
    lemma_le_split(s, off + 14, 2, 2);
    reveal_with_fuel(le_rec, 3);
    reveal_with_fuel(pow256, 17);
    assert(pow256(8) == 0x1_0000_0000_0000_0000);
}

pub proof fn lemma_pow_add(a: nat, b: nat)
    ensures
        pow256(a + b) == pow256(a) * pow256(b),
    decreases a,
{
    if a > 0 {
        lemma_pow_add((a - 1) as nat, b);
        assert(pow256(a + b) == 256 * pow256((a - 1 + b) as nat));
        vstd::arithmetic::mul::lemma_mul_is_associative(256, pow256((a - 1) as nat), pow256(b));
    }
}

/// Splitting a little-endian field into a low and a high part.
pub proof fn lemma_le_split(s: Seq<u8>, off: int, a: nat, b: nat)
    ensures
        le_rec(s, off, a + b) == le_rec(s, off, a) + pow256(a) * le_rec(s, off + a, b),
    decreases a,
{
    if a > 0 {
        lemma_le_split(s, off + 1, (a - 1) as nat, b);
        assert(le_rec(s, off, a + b) == s[off] as int + 256 * le_rec(s, off + 1, (a - 1 + b) as nat));
        vstd::arithmetic::mul::lemma_mul_is_distributive_add(
            256,
            le_rec(s, off + 1, (a - 1) as nat),
            pow256((a - 1) as nat) * le_rec(s, off + a, b),
        );
        vstd::arithmetic::mul::lemma_mul_is_associative(
            256,
            pow256((a - 1) as nat),
            le_rec(s, off + a, b),
        );
    }
}

/// A little-endian field of `n` bytes lies in `0..256^n`.
pub proof fn lemma_le_bound(s: Seq<u8>, off: int, n: nat)
    ensures
        0 <= le_rec(s, off, n) < pow256(n),
    decreases n,
{
    if n > 0 {
        lemma_le_bound(s, off + 1, (n - 1) as nat);
        let r = le_rec(s, off + 1, (n - 1) as nat);
        let p = pow256((n - 1) as nat);
        assert(s[off] as int + 256 * r < 256 * p) by (nonlinear_arith)
            requires
                r < p,
                0 <= s[off] < 256,
        ;
    }
}

/// Byte `j` of a little-endian field is the byte stored at `off + j`.
pub proof fn lemma_le_byte(s: Seq<u8>, off: int, n: nat, j: nat)
    requires
        j < n,
    ensures
        byte_of(le_rec(s, off, n), j) == s[off + j],
    decreases j,
{
    let v = le_rec(s, off, n);
    let rest = le_rec(s, off + 1, (n - 1) as nat);
    lemma_le_bound(s, off + 1, (n - 1) as nat);
    vstd::arithmetic::div_mod::lemma_fundamental_div_mod_converse(v, 256, rest, s[off] as int);
    if j == 0 {
        assert(pow256(0) == 1);
        assert(v / 1 == v);
    } else {
        lemma_le_byte(s, off + 1, (n - 1) as nat, (j - 1) as nat);
        lemma_pow_pos((j - 1) as nat);
        vstd::arithmetic::div_mod::lemma_div_denominator(v, 256, pow256((j - 1) as nat));
        assert(pow256(j) == 256 * pow256((j - 1) as nat));
    }
}

/// Decoding the little-endian bytes of `v` gives `v` modulo `256^n`.
pub proof fn lemma_le_of_bytes(s: Seq<u8>, off: int, n: nat, v: int)
    requires
        0 <= v,
        forall|i: int| 0 <= i < n ==> #[trigger] s[off + i] == byte_of(v, i as nat),
    ensures
        le_rec(s, off, n) == v % pow256(n),
    decreases n,
{
    if n == 0 {
        assert(v % 1 == 0);
    } else {
        assert forall|i: int| 0 <= i < n - 1 implies #[trigger] s[off + 1 + i] == byte_of(
            v / 256,
            i as nat,
        ) by {
            assert(s[off + (i + 1)] == byte_of(v, (i + 1) as nat));
            lemma_pow_pos(i as nat);
            vstd::arithmetic::div_mod::lemma_div_denominator(v, 256, pow256(i as nat));
            assert(pow256((i + 1) as nat) == 256 * pow256(i as nat));
        }
        lemma_le_of_bytes(s, off + 1, (n - 1) as nat, v / 256);
        assert(s[off + 0] == byte_of(v, 0));
        assert(pow256(0) == 1);
        assert(v / 1 == v);
        lemma_pow_pos((n - 1) as nat);
        vstd::arithmetic::div_mod::lemma_mod_breakdown(v, 256, pow256((n - 1) as nat));
    }
}

/// Byte `j` of a big-endian field of `n` bytes is the byte stored at `off + n - 1 - j`.
pub proof fn lemma_be_byte(s: Seq<u8>, off: int, n: nat, j: nat)
    requires
        j < n,
    ensures
        byte_of(be_bytes(s, off, n), j) == s[off + n - 1 - j],
        0 <= be_bytes(s, off, n) < pow256(n),
    decreases n,
{
    let v = be_bytes(s, off, n);
    let hi = be_bytes(s, off, (n - 1) as nat);
    if n > 1 && j > 0 {
        lemma_be_byte(s, off, (n - 1) as nat, (j - 1) as nat);
    } else if n > 1 {
        lemma_be_byte(s, off, (n - 1) as nat, 0);
    } else {
        assert(hi == 0);
    }
    assert(0 <= hi < pow256((n - 1) as nat));
    assert(pow256(n) == 256 * pow256((n - 1) as nat));
    assert(hi * 256 + s[off + n - 1] < 256 * pow256((n - 1) as nat)) by (nonlinear_arith)
        requires
            hi < pow256((n - 1) as nat),
            0 <= s[off + n - 1] < 256,
    ;
    vstd::arithmetic::div_mod::lemma_fundamental_div_mod_converse(v, 256, hi, s[off + n - 1] as int);
    if j == 0 {
        assert(pow256(0) == 1);
        assert(v / 1 == v);
    } else {
        lemma_pow_pos((j - 1) as nat);
        vstd::arithmetic::div_mod::lemma_div_denominator(v, 256, pow256((j - 1) as nat));
        assert(pow256(j) == 256 * pow256((j - 1) as nat));
    }
}

} // verus!

verus! {

/// The `n`-byte little-endian encoding of `v`.
pub open spec fn le_bytes(v: int, n: nat) -> Seq<u8> {
    Seq::new(n, |i: int| byte_of(v, i as nat))
}

/// Appends the `n`-byte little-endian encoding of `v`.
pub fn push_le(out: &mut Vec<u8>, n: usize, v: u128)
    requires
        n <= 16,
    ensures
        final(out)@ == old(out)@ + le_bytes(v as int, n as nat),
{
    let ghost orig = out@;
    let mut rest: u128 = v;
    let mut i: usize = 0;
    while i < n
        invariant
            i <= n,
            n <= 16,
            rest == (v as int) / pow256(i as nat),
            out@ == orig + le_bytes(v as int, i as nat),
        decreases n - i,
    {
        let b: u8 = (rest % 256) as u8;
        proof {
            assert(pow256((i + 1) as nat) == 256 * pow256(i as nat));
            lemma_pow_pos(i as nat);
            lemma_div_div(v as int, pow256(i as nat), 256);
        }
        out.push(b);
        assert(out@ =~= orig + le_bytes(v as int, (i + 1) as nat));
        rest = rest / 256;
        i = i + 1;
    }
}

/// A field whose bytes are the encoding of `v` decodes to `v`.
pub proof fn lemma_le_bytes_decode(s: Seq<u8>, off: int, n: nat, v: int)
    requires
        0 <= off,
        off + n <= s.len(),
        0 <= v < pow256(n),
        s.subrange(off, off + n) == le_bytes(v, n),
    ensures
        le_rec(s, off, n) == v,
{
    assert forall|i: int| 0 <= i < n implies #[trigger] s[off + i] == byte_of(v, i as nat) by {
        assert(s.subrange(off, off + n)[i] == s[off + i]);
    }
    lemma_le_of_bytes(s, off, n, v);
    vstd::arithmetic::div_mod::lemma_small_mod(v as nat, pow256(n) as nat);
}

/// Copies `src` into `dst` at `off`.
pub fn copy_into(dst: &mut Vec<u8>, off: usize, src: &[u8])
    requires
        off + src@.len() <= old(dst).len(),
    ensures
        final(dst)@.len() == old(dst)@.len(),
        final(dst)@.subrange(off as int, off + src@.len()) == src@,
        forall|i: int|
            0 <= i < old(dst)@.len() && !(off <= i < off + src@.len()) ==> #[trigger] final(dst)@[i]
                == old(dst)@[i],
{
    let ghost orig = dst@;
    let mut i: usize = 0;
    while i < src.len()
        invariant
            off + src@.len() <= dst.len(),
            dst@.len() == orig.len(),
            i <= src@.len(),
            forall|j: int|
                0 <= j < dst@.len() ==> #[trigger] dst@[j] == if off <= j < off + i {
                    src@[j - off]
                } else {
                    orig[j]
                },
        decreases src@.len() - i,
    {
        dst.set(off + i, src[i]);
        i = i + 1;
    }
    assert(dst@.subrange(off as int, off + src@.len()) =~= src@);
}

} // verus!

verus! {

/// Copies the `N` bytes at `off` into an array.
pub fn read_u8_array<const N: usize>(input: &[u8], off: usize) -> (a: [u8; N])
    requires
        off + N <= input.len(),
    ensures
        a@ == input@.subrange(off as int, off + N),
{
    let mut a: [u8; N] = vstd::array::array_fill_for_copy_types::<u8, N>(0);
    let mut i: usize = 0;
    while i < N
        invariant
            i <= N,
            off + N <= input.len(),
            a@.len() == N,
            forall|j: int| 0 <= j < i ==> #[trigger] a@[j] == input@[off + j],
        decreases N - i,
    {
        a[i] = input[off + i];
        i = i + 1;
    }
    assert(a@ =~= input@.subrange(off as int, off + N));
    a
}

/// Reads the `N` four-byte little-endian values at `off`.
pub fn read_u32_array<const N: usize>(input: &[u8], off: usize) -> (a: [u32; N])
    requires
        off + 4 * N <= input.len(),
    ensures
        forall|k: int| 0 <= k < N ==> #[trigger] a@[k] == le32(input@, off + 4 * k),
{
    let mut a: [u32; N] = vstd::array::array_fill_for_copy_types::<u32, N>(0);
    let mut i: usize = 0;
    while i < N
        invariant
            i <= N,
            off + 4 * N <= input.len(),
            a@.len() == N,
            forall|k: int| 0 <= k < i ==> #[trigger] a@[k] == le32(input@, off + 4 * k),
        decreases N - i,
    {
        a[i] = read_u32_le(input, off + 4 * i);
        i = i + 1;
    }
    a
}

/// Appends the bytes of an array.
pub fn push_u8_array<const N: usize>(out: &mut Vec<u8>, a: &[u8; N])
    ensures
        final(out)@ == old(out)@ + a@,
{
    let ghost orig = out@;
    let mut i: usize = 0;
    while i < N
        invariant
            i <= N,
            a@.len() == N,
            out@ == orig + a@.take(i as int),
        decreases N - i,
    {
        out.push(a[i]);
        assert(out@ =~= orig + a@.take(i + 1));
        i = i + 1;
    }
    assert(a@.take(N as int) =~= a@);
}

/// The little-endian encodings of the values of `a`, one after another.
pub open spec fn u32s_le_bytes(a: Seq<u32>) -> Seq<u8> {
    Seq::new(4 * a.len(), |i: int| byte_of(a[i / 4] as int, (i % 4) as nat))
}

/// Appends the little-endian encodings of the values of an array.
pub fn push_u32_array<const N: usize>(out: &mut Vec<u8>, a: &[u32; N])
    ensures
        final(out)@ == old(out)@ + u32s_le_bytes(a@),
{
    let ghost orig = out@;
    let mut i: usize = 0;
    while i < N
        invariant
            i <= N,
            a@.len() == N,
            out@ == orig + u32s_le_bytes(a@.take(i as int)),
        decreases N - i,
    {
        let ghost before = out@;
        push_le(out, 4, a[i] as u128);
        assert(out@ =~= orig + u32s_le_bytes(a@.take(i + 1))) by {
            assert forall|j: int| 0 <= j < 4 * (i + 1) implies #[trigger] u32s_le_bytes(
                a@.take(i + 1),
            )[j] == (u32s_le_bytes(a@.take(i as int)) + le_bytes(a[i as int] as int, 4))[j] by {
                if j < 4 * i {
                    assert(a@.take(i + 1)[j / 4] == a@.take(i as int)[j / 4]);
                } else {
                    assert(j / 4 == i);
                }
            }
            assert(u32s_le_bytes(a@.take(i + 1)) =~= u32s_le_bytes(a@.take(i as int)) + le_bytes(
                a[i as int] as int,
                4,
            ));
        }
        i = i + 1;
    }
    assert(a@.take(N as int) =~= a@);
}

} // verus!

verus! {

/// The encoding of a little-endian field is the bytes it was read from.
pub proof fn lemma_le_field(s: Seq<u8>, off: int, n: nat, v: int)
    requires
        0 <= off,
        off + n <= s.len(),
        v == le_rec(s, off, n),
    ensures
        le_bytes(v, n) == s.subrange(off, off + n),
{
    assert forall|j: int| 0 <= j < n implies #[trigger] le_bytes(v, n)[j] == s.subrange(
        off,
        off + n,
    )[j] by {
        lemma_le_byte(s, off, n, j as nat);
    }
    assert(le_bytes(v, n) =~= s.subrange(off, off + n));
}

/// The encoding of an array of four-byte fields is the bytes it was read from.
pub proof fn lemma_u32s_field(s: Seq<u8>, off: int, a: Seq<u32>)
    requires
        0 <= off,
        off + 4 * a.len() <= s.len(),
        forall|k: int| 0 <= k < a.len() ==> #[trigger] a[k] == le32(s, off + 4 * k),
    ensures
        u32s_le_bytes(a) == s.subrange(off, off + 4 * a.len()),
{
    assert forall|i: int| 0 <= i < 4 * a.len() implies #[trigger] u32s_le_bytes(a)[i] == s.subrange(
        off,
        off + 4 * a.len(),
    )[i] by {
        let k = i / 4;
        let j = i % 4;
        assert(a[k] == le32(s, off + 4 * k));
        lemma_le_fixed(s, off + 4 * k);
        lemma_le_byte(s, off + 4 * k, 4, j as nat);
        assert(off + 4 * k + j == off + i);
    }
    assert(u32s_le_bytes(a) =~= s.subrange(off, off + 4 * a.len()));
}

/// Concatenations with equally long tails are equal exactly when both parts are.
pub proof fn lemma_concat_eq<A>(p: Seq<A>, x: Seq<A>, q: Seq<A>, y: Seq<A>)
    requires
        p + x == q + y,
        x.len() == y.len(),
    ensures
        p == q,
        x == y,
{
    assert(p =~= (p + x).take(p.len() as int));
    assert(q =~= (q + y).take(q.len() as int));
    assert(x =~= (p + x).skip(p.len() as int));
    assert(y =~= (q + y).skip(q.len() as int));
}

/// Equal encodings of values below `256^n` come from equal values.
pub proof fn lemma_le_bytes_injective(a: int, b: int, n: nat)
    requires
        0 <= a < pow256(n),
        0 <= b < pow256(n),
        le_bytes(a, n) == le_bytes(b, n),
    ensures
        a == b,
{
    let s = le_bytes(a, n);
    assert(s.subrange(0, n as int) =~= s);
    lemma_le_bytes_decode(s, 0, n, a);
    lemma_le_bytes_decode(s, 0, n, b);
}

/// Equal encodings of arrays of four-byte fields come from equal arrays.
pub proof fn lemma_u32s_injective(a: Seq<u32>, b: Seq<u32>)
    requires
        a.len() == b.len(),
        u32s_le_bytes(a) == u32s_le_bytes(b),
    ensures
        a == b,
{
    lemma_pow256();
    assert forall|k: int| 0 <= k < a.len() implies a[k] == b[k] by {
        assert forall|j: int| 0 <= j < 4 implies #[trigger] le_bytes(a[k] as int, 4)[j] == le_bytes(
            b[k] as int,
            4,
        )[j] by {
            let i = 4 * k + j;
            assert(i / 4 == k);
            assert(i % 4 == j);
            assert(u32s_le_bytes(a)[i] == byte_of(a[k] as int, j as nat));
            assert(u32s_le_bytes(b)[i] == byte_of(b[k] as int, j as nat));
            assert(u32s_le_bytes(a)[i] == u32s_le_bytes(b)[i]);
        }
        assert(le_bytes(a[k] as int, 4) =~= le_bytes(b[k] as int, 4));
        lemma_le_bytes_injective(a[k] as int, b[k] as int, 4);
    }
    assert(a =~= b);
}

/// The encoding of an array of two-byte fields is the bytes it was read from.
pub proof fn lemma_u16s_field(s: Seq<u8>, off: int, a: Seq<u16>)
    requires
        0 <= off,
        off + 2 * a.len() <= s.len(),
        forall|k: int| 0 <= k < a.len() ==> #[trigger] a[k] == le16(s, off + 2 * k),
    ensures
        u16s_le_bytes(a) == s.subrange(off, off + 2 * a.len()),
{
    assert forall|i: int| 0 <= i < 2 * a.len() implies #[trigger] u16s_le_bytes(a)[i] == s.subrange(
        off,
        off + 2 * a.len(),
    )[i] by {
        let k = i / 2;
        let j = i % 2;
        assert(a[k] == le16(s, off + 2 * k));
        lemma_le_fixed(s, off + 2 * k);
        lemma_le_byte(s, off + 2 * k, 2, j as nat);
        assert(off + 2 * k + j == off + i);
    }
    assert(u16s_le_bytes(a) =~= s.subrange(off, off + 2 * a.len()));
}

/// Equal encodings of arrays of two-byte fields come from equal arrays.
pub proof fn lemma_u16s_injective(a: Seq<u16>, b: Seq<u16>)
    requires
        a.len() == b.len(),
        u16s_le_bytes(a) == u16s_le_bytes(b),
    ensures
        a == b,
{
    lemma_pow256();
    assert forall|k: int| 0 <= k < a.len() implies a[k] == b[k] by {
        assert forall|j: int| 0 <= j < 2 implies #[trigger] le_bytes(a[k] as int, 2)[j] == le_bytes(
            b[k] as int,
            2,
        )[j] by {
            let i = 2 * k + j;
            assert(i / 2 == k);
            assert(i % 2 == j);
            assert(u16s_le_bytes(a)[i] == byte_of(a[k] as int, j as nat));
            assert(u16s_le_bytes(b)[i] == byte_of(b[k] as int, j as nat));
            assert(u16s_le_bytes(a)[i] == u16s_le_bytes(b)[i]);
        }
        assert(le_bytes(a[k] as int, 2) =~= le_bytes(b[k] as int, 2));
        lemma_le_bytes_injective(a[k] as int, b[k] as int, 2);
    }
    assert(a =~= b);
}

} // verus!
