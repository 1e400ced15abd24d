//! Fixed-width integers as they lie on the wire.
//!
//! Every multi-byte field of the capture container, of the feed and of the
//! fixed-layout codec is decoded byte by byte with a declared byte order; no
//! value is ever obtained by reinterpreting memory. The spec functions give
//! the value of a field as plain arithmetic over the bytes, and the byte
//! string of a value as its digits in base 256.
use vstd::prelude::*;

verus! {

/// The value of the two bytes at `at`, least significant first.
pub open spec fn u16_le(s: Seq<u8>, at: int) -> int {
    s[at] as int + 0x100 * (s[at + 1] as int)
}

/// The value of the two bytes at `at`, most significant first.
pub open spec fn u16_be(s: Seq<u8>, at: int) -> int {
    0x100 * (s[at] as int) + s[at + 1] as int
}

/// The value of the four bytes at `at`, least significant first.
pub open spec fn u32_le(s: Seq<u8>, at: int) -> int {
    s[at] as int + 0x100 * (s[at + 1] as int) + 0x1_0000 * (s[at + 2] as int) + 0x100_0000 * (s[at
        + 3] as int)
}

/// The value of the eight bytes at `at`, least significant first.
pub open spec fn u64_le(s: Seq<u8>, at: int) -> int {
    u32_le(s, at) + 0x1_0000_0000 * u32_le(s, at + 4)
}

/// The signed reading of an unsigned 64-bit value (two's complement).
pub open spec fn signed64(u: int) -> int {
    if u < 0x8000_0000_0000_0000 {
        u
    } else {
        u - 0x1_0000_0000_0000_0000
    }
}

/// The unsigned 64-bit value whose signed reading is `i`.
pub open spec fn unsigned64(i: int) -> int {
    if i >= 0 {
        i
    } else {
        i + 0x1_0000_0000_0000_0000
    }
}

/// The value of the eight bytes at `at` as a signed integer, least
/// significant byte first.
pub open spec fn i64_le(s: Seq<u8>, at: int) -> int {
    signed64(u64_le(s, at))
}

/// The two bytes of `x`, least significant first.
#[verifier::opaque]
pub open spec fn u16_bytes(x: int) -> Seq<u8> {
    seq![(x % 0x100) as u8, (x / 0x100 % 0x100) as u8]
}

/// The four bytes of `x`, least significant first.
#[verifier::opaque]
pub open spec fn u32_bytes(x: int) -> Seq<u8> {
    seq![
        (x % 0x100) as u8,
        (x / 0x100 % 0x100) as u8,
        (x / 0x1_0000 % 0x100) as u8,
        (x / 0x100_0000 % 0x100) as u8,
    ]
}

/// The eight bytes of `x`, least significant first.
#[verifier::opaque]
pub open spec fn u64_bytes(x: int) -> Seq<u8> {
    u32_bytes(x % 0x1_0000_0000) + u32_bytes(x / 0x1_0000_0000)
}

/// The eight bytes of the signed value `i`, least significant first.
pub open spec fn i64_bytes(i: int) -> Seq<u8> {
    u64_bytes(unsigned64(i))
}

/// The byte strings of fixed-width values have the width's length.
pub proof fn lemma_bytes_len(x: int)
    ensures
        u16_bytes(x).len() == 2,
        u32_bytes(x).len() == 4,
        u64_bytes(x).len() == 8,
        i64_bytes(x).len() == 8,
{
    reveal(u16_bytes);
    reveal(u32_bytes);
    reveal(u64_bytes);
}

/// A part of a part of `s` is a part of `s`.
pub proof fn lemma_subrange_twice(s: Seq<u8>, at: int, n: int, i: int, j: int)
    requires
        0 <= at,
        at + n <= s.len(),
        0 <= i <= j <= n,
    ensures
        s.subrange(at, at + n).subrange(i, j) == s.subrange(at + i, at + j),
{
    assert(s.subrange(at, at + n).subrange(i, j) =~= s.subrange(at + i, at + j));
}

/// A 16-bit value is read back from its two bytes.
pub proof fn lemma_u16_bytes_at(s: Seq<u8>, at: int, x: int)
    requires
        0 <= x <= u16::MAX,
        0 <= at,
        at + 2 <= s.len(),
        s.subrange(at, at + 2) == u16_bytes(x),
    ensures
        u16_le(s, at) == x,
{
    reveal(u16_bytes);
    let f = s.subrange(at, at + 2);
    assert(f[0] == s[at] && f[1] == s[at + 1]);
    assert(u16_bytes(x)[0] == (x % 0x100) as u8);
    assert(u16_bytes(x)[1] == (x / 0x100 % 0x100) as u8);
}

/// A 32-bit value is read back from its four bytes.
pub proof fn lemma_u32_bytes_at(s: Seq<u8>, at: int, x: int)
    requires
        0 <= x <= u32::MAX,
        0 <= at,
        at + 4 <= s.len(),
        s.subrange(at, at + 4) == u32_bytes(x),
    ensures
        u32_le(s, at) == x,
{
    reveal(u32_bytes);
    let f = s.subrange(at, at + 4);
    assert(f[0] == s[at] && f[1] == s[at + 1] && f[2] == s[at + 2] && f[3] == s[at + 3]);
    assert(u32_bytes(x)[0] == (x % 0x100) as u8);
    assert(u32_bytes(x)[1] == (x / 0x100 % 0x100) as u8);
    assert(u32_bytes(x)[2] == (x / 0x1_0000 % 0x100) as u8);
    assert(u32_bytes(x)[3] == (x / 0x100_0000 % 0x100) as u8);
}

/// A 64-bit value is read back from its eight bytes.
pub proof fn lemma_u64_bytes_at(s: Seq<u8>, at: int, x: int)
    requires
        0 <= x <= u64::MAX,
        0 <= at,
        at + 8 <= s.len(),
        s.subrange(at, at + 8) == u64_bytes(x),
    ensures
        u64_le(s, at) == x,
{
    reveal(u64_bytes);
    lemma_bytes_len(x % 0x1_0000_0000);
    lemma_bytes_len(x / 0x1_0000_0000);
    let f = s.subrange(at, at + 8);
    let lo = x % 0x1_0000_0000;
    let hi = x / 0x1_0000_0000;
    assert(u64_bytes(x).subrange(0, 4) =~= u32_bytes(lo));
    assert(u64_bytes(x).subrange(4, 8) =~= u32_bytes(hi));
    assert(s.subrange(at, at + 4) =~= f.subrange(0, 4));
    assert(s.subrange(at + 4, at + 8) =~= f.subrange(4, 8));
    lemma_u32_bytes_at(s, at, lo);
    lemma_u32_bytes_at(s, at + 4, hi);
}

/// A signed 64-bit value is read back from its eight bytes.
pub proof fn lemma_i64_bytes_at(s: Seq<u8>, at: int, i: int)
    requires
        i64::MIN <= i <= i64::MAX,
        0 <= at,
        at + 8 <= s.len(),
        s.subrange(at, at + 8) == i64_bytes(i),
    ensures
        i64_le(s, at) == i,
{
    lemma_u64_bytes_at(s, at, unsigned64(i));
}

/// Reads the byte at `at`.
pub fn read_u8(data: &[u8], at: usize) -> (x: u8)
    requires
        at < data@.len(),
    ensures
        x == data@[at as int],
{
    data[at]
}

/// Reads a little-endian 16-bit field.
pub fn read_u16_le(data: &[u8], at: usize) -> (x: u16)
    requires
        at + 2 <= data@.len(),
    ensures
        x == u16_le(data@, at as int),
{
    let b0: u16 = data[at] as u16;
    let b1: u16 = data[at + 1] as u16;
    b0 + 0x100 * b1
}

/// Reads a big-endian 16-bit field.
pub fn read_u16_be(data: &[u8], at: usize) -> (x: u16)
    requires
        at + 2 <= data@.len(),
    ensures
        x == u16_be(data@, at as int),
{
    let b0: u16 = data[at] as u16;
    let b1: u16 = data[at + 1] as u16;
    0x100 * b0 + b1
}

/// Reads a little-endian 32-bit field.
pub fn read_u32_le(data: &[u8], at: usize) -> (x: u32)
    requires
        at + 4 <= data@.len(),
    ensures
        x == u32_le(data@, at as int),
{
    let b0: u32 = data[at] as u32;
    let b1: u32 = data[at + 1] as u32;
    let b2: u32 = data[at + 2] as u32;
    let b3: u32 = data[at + 3] as u32;
    b0 + 0x100 * b1 + 0x1_0000 * b2 + 0x100_0000 * b3
}

/// Reads a little-endian 64-bit field.
pub fn read_u64_le(data: &[u8], at: usize) -> (x: u64)
    requires
        at + 8 <= data@.len(),
    ensures
        x == u64_le(data@, at as int),
{
    assert(data@.len() == data.len());
    let lo: u64 = read_u32_le(data, at) as u64;
    let hi: u64 = read_u32_le(data, at + 4) as u64;
    lo + 0x1_0000_0000 * hi
}

/// The signed reading of an unsigned 64-bit value.
pub fn to_signed64(u: u64) -> (i: i64)
    ensures
        i == signed64(u as int),
{
    if u < 0x8000_0000_0000_0000 {
        u as i64
    } else {
        let low: i64 = (u - 0x8000_0000_0000_0000) as i64;
        low + i64::MIN
    }
}

/// The unsigned 64-bit value with the same bits as `i`.
pub fn to_unsigned64(i: i64) -> (u: u64)
    ensures
        u == unsigned64(i as int),
{
    if i >= 0 {
        i as u64
    } else {
        let low: i64 = i - i64::MIN;
        low as u64 + 0x8000_0000_0000_0000
    }
}

/// Reads a little-endian signed 64-bit field.
pub fn read_i64_le(data: &[u8], at: usize) -> (x: i64)
    requires
        at + 8 <= data@.len(),
    ensures
        x == i64_le(data@, at as int),
{
    to_signed64(read_u64_le(data, at))
}

/// The eight bytes at `at`, as a fixed-width field.
pub open spec fn array8(s: Seq<u8>, at: int) -> [u8; 8] {
    [s[at], s[at + 1], s[at + 2], s[at + 3], s[at + 4], s[at + 5], s[at + 6], s[at + 7]]
}

/// The four bytes at `at`, as a fixed-width field.
pub open spec fn array4(s: Seq<u8>, at: int) -> [u8; 4] {
    [s[at], s[at + 1], s[at + 2], s[at + 3]]
}

/// Copies the eight bytes at `at` into an array.
pub fn read_array8(data: &[u8], at: usize) -> (a: [u8; 8])
    requires
        at + 8 <= data@.len(),
    ensures
        a == array8(data@, at as int),
{
    let a: [u8; 8] = [
        data[at],
        data[at + 1],
        data[at + 2],
        data[at + 3],
        data[at + 4],
        data[at + 5],
        data[at + 6],
        data[at + 7],
    ];
    assert(a@ =~= array8(data@, at as int)@);
    a
}

/// Copies the four bytes at `at` into an array.
pub fn read_array4(data: &[u8], at: usize) -> (a: [u8; 4])
    requires
        at + 4 <= data@.len(),
    ensures
        a == array4(data@, at as int),
{
    let a: [u8; 4] = [data[at], data[at + 1], data[at + 2], data[at + 3]];
    assert(a@ =~= array4(data@, at as int)@);
    a
}

/// The bytes of `s` from `at` to its end, borrowed.
pub fn tail(data: &[u8], at: usize) -> (rest: &[u8])
    requires
        at <= data@.len(),
    ensures
        rest@ == data@.skip(at as int),
{
    vstd::slice::slice_subrange(data, at, data.len())
}

/// `s` with the bytes from `at` on replaced by `bytes`; the length of `s`
/// stays.
pub open spec fn overwrite(s: Seq<u8>, at: int, bytes: Seq<u8>) -> Seq<u8> {
    s.subrange(0, at) + bytes + s.subrange(at + bytes.len(), s.len() as int)
}

/// Writing `a` and then `b` behind it is writing `a + b`.
pub proof fn lemma_overwrite_concat(s: Seq<u8>, at: int, a: Seq<u8>, b: Seq<u8>)
    requires
        0 <= at,
        at + a.len() + b.len() <= s.len(),
    ensures
        overwrite(overwrite(s, at, a), at + a.len(), b) == overwrite(s, at, a + b),
{
    assert(overwrite(overwrite(s, at, a), at + a.len(), b) =~= overwrite(s, at, a + b));
}

/// Writing `a` behind a prefix that is known extends the known prefix by `a`.
pub proof fn lemma_overwrite_extends(s: Seq<u8>, at: int, known: Seq<u8>, a: Seq<u8>)
    requires
        0 <= at,
        at + a.len() <= s.len(),
        s.subrange(0, at) == known,
    ensures
        overwrite(s, at, a).len() == s.len(),
        overwrite(s, at, a).subrange(0, at + a.len()) == known + a,
{
    assert(overwrite(s, at, a).subrange(0, at + a.len()) =~= known + a);
}

/// Writing `a` over a part of a prefix that is known replaces that part and
/// leaves what lies before and behind it.
pub proof fn lemma_overwrite_inside(
    s: Seq<u8>,
    end: int,
    before: Seq<u8>,
    part: Seq<u8>,
    behind: Seq<u8>,
    a: Seq<u8>,
)
    requires
        0 <= end <= s.len(),
        a.len() == part.len(),
        s.subrange(0, end) == before + part + behind,
    ensures
        overwrite(s, before.len() as int, a).len() == s.len(),
        overwrite(s, before.len() as int, a).subrange(0, end) == before + a + behind,
{
    let known = before + part + behind;
    assert(s.subrange(0, end).len() == end);
    assert forall|i: int| 0 <= i < end implies s[i] == known[i] by {
        assert(s.subrange(0, end)[i] == s[i]);
    }
    assert(overwrite(s, before.len() as int, a).subrange(0, end) =~= before + a + behind);
}

/// The two bytes of a 16-bit value, least significant first.
pub fn u16_to_bytes(x: u16) -> (b: [u8; 2])
    ensures
        b@ == u16_bytes(x as int),
{
    let b: [u8; 2] = [(x % 0x100) as u8, (x / 0x100) as u8];
    reveal(u16_bytes);
    assert(b@ =~= u16_bytes(x as int));
    b
}

/// The four bytes of a 32-bit value, least significant first.
pub fn u32_to_bytes(x: u32) -> (b: [u8; 4])
    ensures
        b@ == u32_bytes(x as int),
{
    let b: [u8; 4] = [
        (x % 0x100) as u8,
        (x / 0x100 % 0x100) as u8,
        (x / 0x1_0000 % 0x100) as u8,
        (x / 0x100_0000) as u8,
    ];
    reveal(u32_bytes);
    assert(b@ =~= u32_bytes(x as int));
    b
}

/// The eight bytes of a 64-bit value, least significant first.
pub fn u64_to_bytes(x: u64) -> (b: [u8; 8])
    ensures
        b@ == u64_bytes(x as int),
{
    let lo: [u8; 4] = u32_to_bytes((x % 0x1_0000_0000) as u32);
    let hi: [u8; 4] = u32_to_bytes((x / 0x1_0000_0000) as u32);
    let b: [u8; 8] = [lo[0], lo[1], lo[2], lo[3], hi[0], hi[1], hi[2], hi[3]];
    reveal(u64_bytes);
    assert(b@ =~= u64_bytes(x as int));
    b
}

/// The eight bytes of a signed 64-bit value, least significant first.
pub fn i64_to_bytes(x: i64) -> (b: [u8; 8])
    ensures
        b@ == i64_bytes(x as int),
{
    u64_to_bytes(to_unsigned64(x))
}

} // verus!
