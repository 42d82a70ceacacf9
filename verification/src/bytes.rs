//! Fixed-width integers in byte strings, and the small moves on byte strings
//! that every wire format here is made of.

use vstd::prelude::*;

verus! {

/// The little-endian 16-bit number that starts at `at`.
pub open spec fn u16_at(s: Seq<u8>, at: int) -> int {
    s[at] + 0x100 * s[at + 1]
}

/// The little-endian 32-bit number that starts at `at`.
pub open spec fn u32_at(s: Seq<u8>, at: int) -> int {
    s[at] + 0x100 * s[at + 1] + 0x1_0000 * s[at + 2] + 0x100_0000 * s[at + 3]
}

/// The little-endian 64-bit number that starts at `at`.
pub open spec fn u64_at(s: Seq<u8>, at: int) -> int {
    u32_at(s, at) + 0x1_0000_0000 * u32_at(s, at + 4)
}

/// The big-endian 32-bit number that starts at `at`.
pub open spec fn be32_at(s: Seq<u8>, at: int) -> int {
    s[at + 3] + 0x100 * s[at + 2] + 0x1_0000 * s[at + 1] + 0x100_0000 * s[at]
}

/// The signed number that the 32 bits of `bits` stand for in two's complement.
pub open spec fn signed32(bits: int) -> int {
    if bits < 0x8000_0000 {
        bits
    } else {
        bits - 0x1_0000_0000
    }
}

/// The 32 bits of a signed number in two's complement.
pub open spec fn bits32(v: int) -> int {
    if v < 0 {
        v + 0x1_0000_0000
    } else {
        v
    }
}

/// The little-endian signed 32-bit number that starts at `at`.
pub open spec fn i32_at(s: Seq<u8>, at: int) -> int {
    signed32(u32_at(s, at))
}

/// A 16-bit number as two little-endian bytes.
#[verifier::opaque]
pub open spec fn u16_le(v: int) -> Seq<u8> {
    seq![(v % 0x100) as u8, (v / 0x100 % 0x100) as u8]
}

/// A 32-bit number as four little-endian bytes.
#[verifier::opaque]
pub open spec fn u32_le(v: int) -> Seq<u8> {
    seq![
        (v % 0x100) as u8,
        (v / 0x100 % 0x100) as u8,
        (v / 0x1_0000 % 0x100) as u8,
        (v / 0x100_0000 % 0x100) as u8,
    ]
}

/// A 64-bit number as eight little-endian bytes.
pub open spec fn u64_le(v: int) -> Seq<u8> {
    u32_le(v % 0x1_0000_0000) + u32_le(v / 0x1_0000_0000)
}

/// A 32-bit number as four big-endian bytes.
pub open spec fn u32_be(v: int) -> Seq<u8> {
    let le = u32_le(v);
    seq![le[3], le[2], le[1], le[0]]
}

/// A 64-bit number as eight big-endian bytes.
pub open spec fn u64_be(v: int) -> Seq<u8> {
    u32_be(v / 0x1_0000_0000) + u32_be(v % 0x1_0000_0000)
}

/// A signed 32-bit number as four little-endian bytes.
pub open spec fn i32_le(v: int) -> Seq<u8> {
    u32_le(bits32(v))
}

/// `n` zero bytes.
pub open spec fn zeroed(n: int) -> Seq<u8> {
    Seq::new(n as nat, |i: int| 0u8)
}

/// `s` with the bytes from `at` on replaced by those of `part`.
pub open spec fn spliced(s: Seq<u8>, at: int, part: Seq<u8>) -> Seq<u8> {
    Seq::new(
        s.len(),
        |i: int|
            if at <= i < at + part.len() {
                part[i - at]
            } else {
                s[i]
            },
    )
}

/// Reading back what was written in 16 bits gives the number.
pub broadcast proof fn u16_round_trip(v: int)
    requires
        0 <= v < 0x1_0000,
    ensures
        #[trigger] u16_le(v).len() == 2,
        u16_at(u16_le(v), 0) == v,
{
    reveal(u16_le);
}

/// Reading back what was written in 32 bits gives the number.
pub broadcast proof fn u32_round_trip(v: int)
    requires
        0 <= v < 0x1_0000_0000,
    ensures
        #[trigger] u32_le(v).len() == 4,
        u32_at(u32_le(v), 0) == v,
{
    reveal(u32_le);
}

pub broadcast proof fn u16_le_len(v: int)
    ensures
        #[trigger] u16_le(v).len() == 2,
{
    reveal(u16_le);
}

pub broadcast proof fn u32_le_len(v: int)
    ensures
        #[trigger] u32_le(v).len() == 4,
{
    reveal(u32_le);
}

pub broadcast group group_le {
    u16_round_trip,
    u32_round_trip,
    u16_le_len,
    u32_le_len,
}

/// Reading back what was written in 64 bits gives the number.
pub proof fn u64_round_trip(v: int)
    requires
        0 <= v < 0x1_0000_0000_0000_0000,
    ensures
        u64_le(v).len() == 8,
        u64_at(u64_le(v), 0) == v,
{
    broadcast use group_le;
    let lo = u32_le(v % 0x1_0000_0000);
    let hi = u32_le(v / 0x1_0000_0000);
    assert(u32_at(u64_le(v), 0) == u32_at(lo, 0));
    assert(u32_at(u64_le(v), 4) == u32_at(hi, 0));
}

/// Writing the number that four bytes hold gives those bytes.
pub proof fn u32_le_of_bytes(s: Seq<u8>)
    requires
        s.len() == 4,
    ensures
        u32_le(u32_at(s, 0)) == s,
        0 <= u32_at(s, 0) < 0x1_0000_0000,
{
    reveal(u32_le);
    let v = u32_at(s, 0);
    assert(v % 0x100 == s[0] as int);
    assert(v / 0x100 == s[1] + 0x100 * s[2] + 0x1_0000 * s[3]);
    assert(v / 0x1_0000 == s[2] + 0x100 * s[3]);
    assert(v / 0x100_0000 == s[3] as int);
    assert(u32_le(v) =~= s);
}

/// Writing the number that two bytes hold gives those bytes.
pub proof fn u16_le_of_bytes(s: Seq<u8>)
    requires
        s.len() == 2,
    ensures
        u16_le(u16_at(s, 0)) == s,
{
    reveal(u16_le);
    assert(u16_le(u16_at(s, 0)) =~= s);
}

/// Writing the number that eight bytes hold gives those bytes.
pub proof fn u64_le_of_bytes(s: Seq<u8>)
    requires
        s.len() == 8,
    ensures
        u64_le(u64_at(s, 0)) == s,
        0 <= u64_at(s, 0) < 0x1_0000_0000_0000_0000,
{
    broadcast use group_le;
    let lo = s.subrange(0, 4);
    let hi = s.subrange(4, 8);
    u32_le_of_bytes(lo);
    u32_le_of_bytes(hi);
    assert(u64_at(s, 0) == u32_at(lo, 0) + 0x1_0000_0000 * u32_at(hi, 0));
    assert(u64_at(s, 0) % 0x1_0000_0000 == u32_at(lo, 0));
    assert(u64_at(s, 0) / 0x1_0000_0000 == u32_at(hi, 0));
    assert(u64_le(u64_at(s, 0)) =~= s);
}

/// The number at `at` depends on the four bytes there alone.
pub proof fn u32_at_subrange(s: Seq<u8>, from: int, to: int, at: int)
    requires
        0 <= from <= to <= s.len(),
        0 <= at,
        from + at + 4 <= to,
    ensures
        u32_at(s.subrange(from, to), at) == u32_at(s, from + at),
{
}

/// Reads two little-endian bytes.
pub fn read_u16(b: &[u8], at: usize) -> (v: u16)
    requires
        at + 2 <= b.len(),
    ensures
        v == u16_at(b@, at as int),
{
    b[at] as u16 + 0x100 * (b[at + 1] as u16)
}

/// Reads four little-endian bytes.
pub fn read_u32(b: &[u8], at: usize) -> (v: u32)
    requires
        at + 4 <= b.len(),
    ensures
        v == u32_at(b@, at as int),
{
    b[at] as u32 + 0x100 * (b[at + 1] as u32) + 0x1_0000 * (b[at + 2] as u32) + 0x100_0000 * (b[at
        + 3] as u32)
}

/// Reads eight little-endian bytes.
pub fn read_u64(b: &[u8], at: usize) -> (v: u64)
    requires
        at + 8 <= b.len(),
    ensures
        v == u64_at(b@, at as int),
{
    read_u32(b, at) as u64 + 0x1_0000_0000 * (read_u32(b, at + 4) as u64)
}

/// Reads four big-endian bytes.
pub fn read_be32(b: &[u8], at: usize) -> (v: u32)
    requires
        at + 4 <= b.len(),
    ensures
        v == be32_at(b@, at as int),
{
    b[at + 3] as u32 + 0x100 * (b[at + 2] as u32) + 0x1_0000 * (b[at + 1] as u32) + 0x100_0000 * (
    b[at] as u32)
}

/// The signed number that 32 bits stand for.
pub fn to_signed(bits: u32) -> (v: i32)
    ensures
        v == signed32(bits as int),
{
    if bits < 0x8000_0000 {
        bits as i32
    } else {
        (bits as i64 - 0x1_0000_0000) as i32
    }
}

/// The 32 bits of a signed number.
pub fn to_bits(v: i32) -> (bits: u32)
    ensures
        bits == bits32(v as int),
{
    if v < 0 {
        (v as i64 + 0x1_0000_0000) as u32
    } else {
        v as u32
    }
}

/// Reads four little-endian bytes as a signed number.
pub fn read_i32(b: &[u8], at: usize) -> (v: i32)
    requires
        at + 4 <= b.len(),
    ensures
        v == i32_at(b@, at as int),
{
    to_signed(read_u32(b, at))
}

/// Appends two little-endian bytes.
pub fn put_u16(out: &mut Vec<u8>, v: u16)
    ensures
        final(out)@ == old(out)@ + u16_le(v as int),
{
    proof {
        reveal(u16_le);
    }
    out.push((v % 0x100) as u8);
    out.push((v / 0x100 % 0x100) as u8);
}

/// Appends four little-endian bytes.
pub fn put_u32(out: &mut Vec<u8>, v: u32)
    ensures
        final(out)@ == old(out)@ + u32_le(v as int),
{
    proof {
        reveal(u32_le);
    }
    out.push((v % 0x100) as u8);
    out.push((v / 0x100 % 0x100) as u8);
    out.push((v / 0x1_0000 % 0x100) as u8);
    out.push((v / 0x100_0000 % 0x100) as u8);
}

/// Appends eight little-endian bytes.
pub fn put_u64(out: &mut Vec<u8>, v: u64)
    ensures
        final(out)@ == old(out)@ + u64_le(v as int),
{
    put_u32(out, (v % 0x1_0000_0000) as u32);
    put_u32(out, (v / 0x1_0000_0000) as u32);
}

/// Appends four little-endian bytes of a signed number.
pub fn put_i32(out: &mut Vec<u8>, v: i32)
    ensures
        final(out)@ == old(out)@ + i32_le(v as int),
{
    put_u32(out, to_bits(v));
}

/// Appends four big-endian bytes.
pub fn put_be32(out: &mut Vec<u8>, v: u32)
    ensures
        final(out)@ == old(out)@ + u32_be(v as int),
{
    proof {
        reveal(u32_le);
    }
    out.push((v / 0x100_0000 % 0x100) as u8);
    out.push((v / 0x1_0000 % 0x100) as u8);
    out.push((v / 0x100 % 0x100) as u8);
    out.push((v % 0x100) as u8);
    assert(out@ =~= old(out)@ + u32_be(v as int));
}

/// Appends eight big-endian bytes.
pub fn put_be64(out: &mut Vec<u8>, v: u64)
    ensures
        final(out)@ == old(out)@ + u64_be(v as int),
{
    put_be32(out, (v / 0x1_0000_0000) as u32);
    put_be32(out, (v % 0x1_0000_0000) as u32);
    assert(out@ =~= old(out)@ + u64_be(v as int));
}

/// Appends the bytes of `part`.
pub fn put_bytes(out: &mut Vec<u8>, part: &[u8])
    ensures
        final(out)@ == old(out)@ + part@,
{
    let mut i: usize = 0;
    while i < part.len()
        invariant
            i <= part.len(),
            out@ == old(out)@ + part@.subrange(0, i as int),
        decreases part.len() - i,
    {
        out.push(part[i]);
        i = i + 1;
    }
    assert(part@.subrange(0, i as int) =~= part@);
}

/// Appends `n` zero bytes.
pub fn put_zeros(out: &mut Vec<u8>, n: usize)
    ensures
        final(out)@ == old(out)@ + zeroed(n as int),
{
    let mut i: usize = 0;
    while i < n
        invariant
            i <= n,
            out@ == old(out)@ + zeroed(i as int),
        decreases n - i,
    {
        out.push(0);
        i = i + 1;
        assert(out@ =~= old(out)@ + zeroed(i as int));
    }
}

/// A string of `n` zero bytes.
pub fn zeros(n: usize) -> (out: Vec<u8>)
    ensures
        out@ == zeroed(n as int),
{
    let mut out: Vec<u8> = Vec::new();
    put_zeros(&mut out, n);
    assert(out@ =~= zeroed(n as int));
    out
}

/// The bytes of `b` from `from` up to `to`.
pub fn copy_range(b: &[u8], from: usize, to: usize) -> (out: Vec<u8>)
    requires
        from <= to <= b.len(),
    ensures
        out@ == b@.subrange(from as int, to as int),
{
    let mut out: Vec<u8> = Vec::new();
    let mut i: usize = from;
    while i < to
        invariant
            from <= i <= to <= b.len(),
            out@ == b@.subrange(from as int, i as int),
        decreases to - i,
    {
        out.push(b[i]);
        i = i + 1;
        assert(out@ =~= b@.subrange(from as int, i as int));
    }
    out
}

/// A copy of a byte string.
pub fn copy_of(b: &[u8]) -> (out: Vec<u8>)
    ensures
        out@ == b@,
{
    let out = copy_range(b, 0, b.len());
    assert(b@.subrange(0, b.len() as int) =~= b@);
    out
}

/// Writes `part` over the bytes of `buf` from `at` on.
pub fn splice(buf: &mut Vec<u8>, at: usize, part: &[u8])
    requires
        at + part.len() <= old(buf).len(),
    ensures
        final(buf)@ == spliced(old(buf)@, at as int, part@),
{
    let mut i: usize = 0;
    while i < part.len()
        invariant
            i <= part.len(),
            at + part.len() <= old(buf).len(),
            buf@ == spliced(old(buf)@, at as int, part@.subrange(0, i as int)),
        decreases part.len() - i,
    {
        buf.set(at + i, part[i]);
        i = i + 1;
        assert(buf@ =~= spliced(old(buf)@, at as int, part@.subrange(0, i as int)));
    }
    assert(part@.subrange(0, i as int) =~= part@);
    assert(buf@ =~= spliced(old(buf)@, at as int, part@));
}

/// Writes a 32-bit number over four bytes of `buf`.
pub fn set_u32(buf: &mut Vec<u8>, at: usize, v: u32)
    requires
        at + 4 <= old(buf).len(),
    ensures
        final(buf)@ == spliced(old(buf)@, at as int, u32_le(v as int)),
{
    broadcast use group_le;

    let mut part: Vec<u8> = Vec::new();
    put_u32(&mut part, v);
    assert(part@ =~= u32_le(v as int));
    splice(buf, at, &part);
}

/// Writes a 64-bit number over eight bytes of `buf`.
pub fn set_u64(buf: &mut Vec<u8>, at: usize, v: u64)
    requires
        at + 8 <= old(buf).len(),
    ensures
        final(buf)@ == spliced(old(buf)@, at as int, u64_le(v as int)),
{
    broadcast use group_le;

    let mut part: Vec<u8> = Vec::new();
    put_u64(&mut part, v);
    assert(part@ =~= u64_le(v as int));
    splice(buf, at, &part);
}

/// Whether two byte strings hold the same bytes.
pub fn same(a: &[u8], b: &[u8]) -> (r: bool)
    ensures
        r == (a@ == b@),
{
    if a.len() != b.len() {
        return false;
    }
    let mut i: usize = 0;
    while i < a.len()
        invariant
            i <= a.len(),
            a.len() == b.len(),
            forall|j: int| 0 <= j < i ==> a@[j] == b@[j],
        decreases a.len() - i,
    {
        if a[i] != b[i] {
            return false;
        }
        i = i + 1;
    }
    assert(a@ =~= b@);
    true
}

/// Whether every byte is zero.
pub fn all_zero(b: &[u8]) -> (r: bool)
    ensures
        r == (forall|i: int| 0 <= i < b.len() ==> b@[i] == 0),
{
    let mut i: usize = 0;
    while i < b.len()
        invariant
            i <= b.len(),
            forall|j: int| 0 <= j < i ==> b@[j] == 0,
        decreases b.len() - i,
    {
        if b[i] != 0 {
            return false;
        }
        i = i + 1;
    }
    true
}

/// The `N` bytes of `b` from `at` on.
pub fn array_at<const N: usize>(b: &[u8], at: usize) -> (r: [u8; N])
    requires
        at + N <= b.len(),
    ensures
        r@ == b@.subrange(at as int, at + N),
{
    let mut r: [u8; N] = [0u8; N];
    let mut i: usize = 0;
    while i < N
        invariant
            i <= N,
            at + N <= b.len(),
            forall|j: int| 0 <= j < i ==> r@[j] == b@[at + j],
        decreases N - i,
    {
        r[i] = b[at + i];
        i = i + 1;
    }
    assert(r@ =~= b@.subrange(at as int, at + N));
    r
}

/// Two arrays with the same bytes are the same array.
pub proof fn same_array<const N: usize>(a: [u8; N], b: [u8; N])
    requires
        a@ == b@,
    ensures
        a == b,
{
    assert forall|i: int| 0 <= i < N implies a[i] == b[i] by {
        assert(a@[i] == b@[i]);
    }
    assert(a =~= b);
}

/// Whether two arrays hold the same bytes.
pub fn same_arrays<const N: usize>(a: &[u8; N], b: &[u8; N]) -> (r: bool)
    ensures
        r == (*a == *b),
{
    let r = same(a.as_slice(), b.as_slice());
    proof {
        if r {
            same_array(*a, *b);
        }
    }
    r
}

// ---------------------------------------------------------------------------
// Numbers among other bytes.
// ---------------------------------------------------------------------------
/// Two bytes of a number read back as the number, wherever they stand.
pub proof fn u16_reads_back(p: Seq<u8>, at: int, v: int)
    requires
        0 <= at,
        at + 2 <= p.len(),
        0 <= v < 0x1_0000,
        p.subrange(at, at + 2) =~= u16_le(v),
    ensures
        u16_at(p, at) == v,
{
    let s = p.subrange(at, at + 2);
    assert(p[at] == s[0] && p[at + 1] == s[1]);
    u16_round_trip(v);
    assert(u16_at(s, 0) == v);
}

/// Four bytes of a number read back as the number, wherever they stand.
pub proof fn u32_reads_back(p: Seq<u8>, at: int, v: int)
    requires
        0 <= at,
        at + 4 <= p.len(),
        0 <= v < 0x1_0000_0000,
        p.subrange(at, at + 4) =~= u32_le(v),
    ensures
        u32_at(p, at) == v,
{
    let s = p.subrange(at, at + 4);
    assert(p[at] == s[0] && p[at + 1] == s[1] && p[at + 2] == s[2] && p[at + 3] == s[3]);
    u32_round_trip(v);
    assert(u32_at(s, 0) == v);
}

/// Four bytes of a signed number read back as the number, wherever they stand.
pub proof fn i32_reads_back(p: Seq<u8>, at: int, v: int)
    requires
        0 <= at,
        at + 4 <= p.len(),
        -0x8000_0000 <= v < 0x8000_0000,
        p.subrange(at, at + 4) =~= i32_le(v),
    ensures
        i32_at(p, at) == v,
{
    broadcast use group_le;

    let s = p.subrange(at, at + 4);
    assert(p[at] == s[0] && p[at + 1] == s[1] && p[at + 2] == s[2] && p[at + 3] == s[3]);
    assert(u32_at(p, at) == u32_at(s, 0));
    u32_round_trip(bits32(v));
}

/// Eight bytes of a number read back as the number, wherever they stand.
pub proof fn u64_reads_back(p: Seq<u8>, at: int, v: int)
    requires
        0 <= at,
        at + 8 <= p.len(),
        0 <= v < 0x1_0000_0000_0000_0000,
        p.subrange(at, at + 8) =~= u64_le(v),
    ensures
        u64_at(p, at) == v,
{
    broadcast use group_le;

    let s = p.subrange(at, at + 8);
    assert(p[at] == s[0] && p[at + 1] == s[1] && p[at + 2] == s[2] && p[at + 3] == s[3] && p[at + 4]
        == s[4] && p[at + 5] == s[5] && p[at + 6] == s[6] && p[at + 7] == s[7]);
    assert(u64_at(p, at) == u64_at(s, 0));
    u64_round_trip(v);
}

/// A number below 256 takes its first byte, and three zeros follow.
pub proof fn small_u32_le(v: u8)
    ensures
        u32_le(v as int) == seq![v, 0u8, 0u8, 0u8],
{
    reveal(u32_le);
    let n = v as int;
    assert(n % 0x100 == n && n / 0x100 == 0 && n / 0x1_0000 == 0 && n / 0x100_0000 == 0);
    assert(u32_le(n).len() == 4);
    assert(u32_le(n)[0] == v);
    assert(u32_le(n)[1] == 0);
    assert(u32_le(n)[2] == 0);
    assert(u32_le(n)[3] == 0);
    assert(u32_le(n) =~= seq![v, 0u8, 0u8, 0u8]);
}

/// A number below 256 takes the first of eight bytes, and seven zeros follow.
pub proof fn small_u64_le(v: u8)
    ensures
        u64_le(v as int) == seq![v, 0u8, 0u8, 0u8, 0u8, 0u8, 0u8, 0u8],
{
    small_u32_le(v);
    small_u32_le(0);
    assert(v as int % 0x1_0000_0000 == v && v as int / 0x1_0000_0000 == 0);
    assert(u64_le(v as int) =~= seq![v, 0u8, 0u8, 0u8, 0u8, 0u8, 0u8, 0u8]);
}

/// The low byte of a number comes first, and the high byte last; in big-endian order it is
/// the other way round.
pub proof fn bytes_are_in_order(a: u8, b: u8, c: u8, d: u8)
    ensures
        u16_at(seq![a, b], 0) == a + 0x100 * b,
        u16_le(a + 0x100 * b) == seq![a, b],
        u32_at(seq![a, b, c, d], 0) == a + 0x100 * b + 0x1_0000 * c + 0x100_0000 * d,
        u32_le(a + 0x100 * b + 0x1_0000 * c + 0x100_0000 * d) == seq![a, b, c, d],
        be32_at(seq![d, c, b, a], 0) == a + 0x100 * b + 0x1_0000 * c + 0x100_0000 * d,
        u32_be(a + 0x100 * b + 0x1_0000 * c + 0x100_0000 * d) == seq![d, c, b, a],
{
    u16_le_of_bytes(seq![a, b]);
    u32_le_of_bytes(seq![a, b, c, d]);
    assert(u32_be(a + 0x100 * b + 0x1_0000 * c + 0x100_0000 * d) =~= seq![d, c, b, a]);
}

/// Of a 64-bit number the low half comes first, and the high half first in big-endian
/// order.
pub proof fn halves_are_in_order(lo: u32, hi: u32)
    ensures
        u64_le(lo + 0x1_0000_0000 * hi) == u32_le(lo as int) + u32_le(hi as int),
        u64_be(lo + 0x1_0000_0000 * hi) == u32_be(hi as int) + u32_be(lo as int),
        u64_at(u32_le(lo as int) + u32_le(hi as int), 0) == lo + 0x1_0000_0000 * hi,
{
    let v = lo + 0x1_0000_0000 * hi;
    assert(v % 0x1_0000_0000 == lo && v / 0x1_0000_0000 == hi);
    u64_round_trip(v);
}

/// Signed numbers are in two's complement: those below zero have the top bit, and -1 has
/// all.
pub proof fn signs_are_kept(v: i32, bits: u32)
    ensures
        signed32(bits32(v as int)) == v,
        bits32(signed32(bits as int)) == bits,
        bits32(-1) == 0xffff_ffff,
        bits32(v as int) >= 0x8000_0000 <==> v < 0,
        signed32(0x8000_0000) == -0x8000_0000,
        i32_le(-1) == seq![0xffu8, 0xff, 0xff, 0xff],
{
    bytes_are_in_order(0xff, 0xff, 0xff, 0xff);
}

/// What is written over a part of a string is there, and the rest is as it was.
pub proof fn splice_keeps_the_rest(s: Seq<u8>, at: int, part: Seq<u8>)
    requires
        0 <= at,
        at + part.len() <= s.len(),
    ensures
        spliced(s, at, part).len() == s.len(),
        spliced(s, at, part).subrange(at, at + part.len()) == part,
        spliced(s, at, part).subrange(0, at) == s.subrange(0, at),
        spliced(s, at, part).subrange(at + part.len(), s.len() as int) == s.subrange(
            at + part.len(),
            s.len() as int,
        ),
        zeroed(3) == seq![0u8, 0, 0],
{
    assert(spliced(s, at, part).subrange(at, at + part.len()) =~= part);
    assert(spliced(s, at, part).subrange(0, at) =~= s.subrange(0, at));
    assert(spliced(s, at, part).subrange(at + part.len(), s.len() as int) =~= s.subrange(
        at + part.len(),
        s.len() as int,
    ));
    assert(zeroed(3) =~= seq![0u8, 0, 0]);
}

} // verus!
