//! Little-endian integers as they stand in AMS packets.
//!
//! The specification functions say which number a run of bytes denotes and
//! which bytes denote a number.  The functions that call `byteorder`,
//! `zerocopy` and the standard library are stated against them.
use byteorder::{ByteOrder, ReadBytesExt, LE};
use vstd::prelude::*;
use zerocopy::byteorder::{U16, U32};
use zerocopy::AsBytes;

verus! {

/// The 16-bit number whose little-endian bytes start at position `at`.
pub open spec fn u16_at(s: Seq<u8>, at: int) -> u16 {
    (s[at] + 0x100 * s[at + 1]) as u16
}

/// The 32-bit number whose little-endian bytes start at position `at`.
pub open spec fn u32_at(s: Seq<u8>, at: int) -> u32 {
    (s[at] + 0x100 * s[at + 1] + 0x1_0000 * s[at + 2] + 0x100_0000 * s[at + 3]) as u32
}

/// The 64-bit number whose little-endian two's complement bytes start at
/// position `at`.
pub open spec fn i64_at(s: Seq<u8>, at: int) -> i64 {
    let n = u32_at(s, at) + 0x1_0000_0000 * u32_at(s, at + 4);
    if n < 0x8000_0000_0000_0000 {
        n as i64
    } else {
        (n - 0x1_0000_0000_0000_0000) as i64
    }
}

/// The two little-endian bytes of `n`.
pub open spec fn u16_bytes(n: u16) -> Seq<u8> {
    seq![(n % 0x100) as u8, (n / 0x100) as u8]
}

/// The four little-endian bytes of `n`.
pub open spec fn u32_bytes(n: u32) -> Seq<u8> {
    seq![
        (n % 0x100) as u8,
        (n / 0x100 % 0x100) as u8,
        (n / 0x1_0000 % 0x100) as u8,
        (n / 0x100_0000) as u8,
    ]
}

/// Reading two bytes back gives the number that was written.
pub proof fn u16_round_trip(n: u16)
    ensures
        u16_at(u16_bytes(n), 0) == n,
{
}

/// Reading four bytes back gives the number that was written.
pub proof fn u32_round_trip(n: u32)
    ensures
        u32_at(u32_bytes(n), 0) == n,
{
}

/// Writing the number that two bytes denote gives these bytes back.
pub proof fn u16_bytes_round_trip(s: Seq<u8>)
    requires
        s.len() == 2,
    ensures
        u16_bytes(u16_at(s, 0)) == s,
{
    assert(u16_bytes(u16_at(s, 0)) =~= s);
}

/// Writing the number that four bytes denote gives these bytes back.
#[verifier::rlimit(40)]
pub proof fn u32_bytes_round_trip(s: Seq<u8>)
    requires
        s.len() == 4,
    ensures
        u32_bytes(u32_at(s, 0)) == s,
{
    let n = u32_at(s, 0);
    assert(n == s[0] + 0x100 * s[1] + 0x1_0000 * s[2] + 0x100_0000 * s[3]);
    assert(n / 0x100 == s[1] + 0x100 * s[2] + 0x1_0000 * s[3]);
    assert(n / 0x1_0000 == s[2] + 0x100 * s[3]);
    assert(n / 0x100_0000 == s[3]);
    assert(u32_bytes(n) =~= s);
}

/// A number that stands at position `at` of `p` can be read there.
pub(crate) proof fn field_u16(p: Seq<u8>, at: int, n: u16, rest: Seq<u8>)
    requires
        0 <= at <= p.len(),
        p.skip(at) == u16_bytes(n) + rest,
    ensures
        u16_at(p, at) == n,
        at + 2 <= p.len(),
        p.skip(at + 2) == rest,
{
    assert(p.skip(at).len() == 2 + rest.len());
    assert(p[at] == p.skip(at)[0]);
    assert(p[at + 1] == p.skip(at)[1]);
    assert(p.skip(at + 2) =~= p.skip(at).skip(2));
    assert(p.skip(at).skip(2) =~= rest);
}

/// A number that stands at position `at` of `p` can be read there.
pub(crate) proof fn field_u32(p: Seq<u8>, at: int, n: u32, rest: Seq<u8>)
    requires
        0 <= at <= p.len(),
        p.skip(at) == u32_bytes(n) + rest,
    ensures
        u32_at(p, at) == n,
        at + 4 <= p.len(),
        p.skip(at + 4) == rest,
{
    assert(p.skip(at).len() == 4 + rest.len());
    assert(p[at] == p.skip(at)[0]);
    assert(p[at + 1] == p.skip(at)[1]);
    assert(p[at + 2] == p.skip(at)[2]);
    assert(p[at + 3] == p.skip(at)[3]);
    assert(p.skip(at + 4) =~= p.skip(at).skip(4));
    assert(p.skip(at).skip(4) =~= rest);
}

/// `byteorder::LE::read_u16`: the number in the first two bytes of `buf`.
/// It panics on a shorter buffer.
#[verifier::external_body]
pub(crate) fn read_u16(buf: &[u8]) -> (r: u16)
    requires
        buf@.len() >= 2,
    ensures
        r == u16_at(buf@, 0),
{
    LE::read_u16(buf)
}

/// `byteorder::LE::read_u32`: the number in the first four bytes of `buf`.
/// It panics on a shorter buffer.
#[verifier::external_body]
pub(crate) fn read_u32(buf: &[u8]) -> (r: u32)
    requires
        buf@.len() >= 4,
    ensures
        r == u32_at(buf@, 0),
{
    LE::read_u32(buf)
}

/// `byteorder::LE::write_u16`: puts the two bytes of `n` at the front of `buf`
/// and leaves the rest.  It panics on a shorter buffer.
#[verifier::external_body]
pub(crate) fn write_u16(buf: &mut [u8], n: u16)
    requires
        old(buf)@.len() >= 2,
    ensures
        final(buf)@ == u16_bytes(n) + old(buf)@.skip(2),
{
    LE::write_u16(buf, n)
}

/// `byteorder::ReadBytesExt::read_u16` on a byte slice: takes the number off
/// the front of `ptr`.  It fails on fewer than two bytes.
#[verifier::external_body]
pub(crate) fn next_u16(ptr: &mut &[u8]) -> (r: u16)
    requires
        old(ptr)@.len() >= 2,
    ensures
        r == u16_at(old(ptr)@, 0),
        final(ptr)@ == old(ptr)@.skip(2),
{
    ptr.read_u16::<LE>().expect("size")
}

/// `byteorder::ReadBytesExt::read_u32` on a byte slice: takes the number off
/// the front of `ptr`.  It fails on fewer than four bytes.
#[verifier::external_body]
pub(crate) fn next_u32(ptr: &mut &[u8]) -> (r: u32)
    requires
        old(ptr)@.len() >= 4,
    ensures
        r == u32_at(old(ptr)@, 0),
        final(ptr)@ == old(ptr)@.skip(4),
{
    ptr.read_u32::<LE>().expect("size")
}

/// `zerocopy::U16::new` and `as_bytes`: the memory of a little-endian `U16`
/// that holds `n`.
#[verifier::external_body]
pub(crate) fn u16_as_bytes(n: u16) -> (r: Vec<u8>)
    ensures
        r@ == u16_bytes(n),
{
    U16::<LE>::new(n).as_bytes().to_vec()
}

/// `zerocopy::U32::new` and `as_bytes`: the memory of a little-endian `U32`
/// that holds `n`.
#[verifier::external_body]
pub(crate) fn u32_as_bytes(n: u32) -> (r: Vec<u8>)
    ensures
        r@ == u32_bytes(n),
{
    U32::<LE>::new(n).as_bytes().to_vec()
}

/// `zerocopy::U16::from_bytes` and `get`: the number that a little-endian `U16`
/// with this memory holds.
#[verifier::external_body]
pub(crate) fn u16_get(bytes: [u8; 2]) -> (r: u16)
    ensures
        r == u16_at(bytes@, 0),
{
    U16::<LE>::from_bytes(bytes).get()
}

/// `zerocopy::U32::from_bytes` and `get`: the number that a little-endian `U32`
/// with this memory holds.
#[verifier::external_body]
pub(crate) fn u32_get(bytes: [u8; 4]) -> (r: u32)
    ensures
        r == u32_at(bytes@, 0),
{
    U32::<LE>::from_bytes(bytes).get()
}

/// `u16::from_le_bytes`: the number with these little-endian bytes.
#[verifier::external_body]
pub(crate) fn u16_from_le_bytes(bytes: [u8; 2]) -> (r: u16)
    ensures
        r == u16_at(bytes@, 0),
{
    u16::from_le_bytes(bytes)
}

/// `u32::from_le_bytes`: the number with these little-endian bytes.
#[verifier::external_body]
pub(crate) fn u32_from_le_bytes(bytes: [u8; 4]) -> (r: u32)
    ensures
        r == u32_at(bytes@, 0),
{
    u32::from_le_bytes(bytes)
}

/// `i64::from_le_bytes`: the number with these little-endian bytes, in two's
/// complement.
#[verifier::external_body]
pub(crate) fn i64_from_le_bytes(bytes: [u8; 8]) -> (r: i64)
    ensures
        r == i64_at(bytes@, 0),
{
    i64::from_le_bytes(bytes)
}

/// The low 32 bits of a length.
pub(crate) fn low_u32(n: usize) -> (r: u32)
    ensures
        r == n as int % 0x1_0000_0000,
{
    let wide: u64 = n as u64;
    assert(wide as u32 == wide % 0x1_0000_0000) by (bit_vector);
    wide as u32
}

/// Appends a copy of `s` to `v`.
pub(crate) fn append(v: &mut Vec<u8>, s: &[u8])
    ensures
        final(v)@ == old(v)@ + s@,
{
    v.extend_from_slice(s);
    assert(v@ =~= old(v)@ + s@);
}

/// Compares two runs of bytes.
pub(crate) fn same_bytes(a: &[u8], b: &[u8]) -> (r: bool)
    ensures
        r == (a@ == b@),
{
    if a.len() != b.len() {
        return false;
    }
    let mut i: usize = 0;
    while i < a.len()
        invariant
            a@.len() == b@.len(),
            i <= a@.len(),
            forall|k: int| 0 <= k < i ==> a@[k] == b@[k],
        decreases a@.len() - i,
    {
        if a[i] != b[i] {
            assert(a@[i as int] != b@[i as int]);
            return false;
        }
        i += 1;
    }
    assert(a@ =~= b@);
    true
}

/// A 16-bit number is made of its bytes, the low one first.
pub proof fn u16_is_its_bytes(s: Seq<u8>, at: int)
    ensures
        u16_at(s, at) == s[at] + 256 * s[at + 1],
{
}

/// A 32-bit number is made of its bytes, the low one first.
pub proof fn u32_is_its_bytes(s: Seq<u8>, at: int)
    ensures
        u32_at(s, at) == s[at] + 256 * (s[at + 1] + 256 * (s[at + 2] + 256 * s[at + 3])),
{
}

/// A signed number is made of its bytes, the low one first; it is negative if
/// and only if the highest bit is set, and then the bytes are those of the number
/// plus 2^64.
#[verifier::rlimit(40)]
pub proof fn i64_is_its_bytes(s: Seq<u8>, at: int)
    ensures
        ({
            let low = s[at] + 256 * (s[at + 1] + 256 * (s[at + 2] + 256 * s[at + 3]));
            let high = s[at + 4] + 256 * (s[at + 5] + 256 * (s[at + 6] + 256 * s[at + 7]));
            &&& i64_at(s, at) < 0 <==> s[at + 7] >= 128
            &&& i64_at(s, at) == low + 0x1_0000_0000 * high - if s[at + 7] >= 128 {
                0x1_0000_0000_0000_0000int
            } else {
                0
            }
        }),
{
    u32_is_its_bytes(s, at);
    u32_is_its_bytes(s, at + 4);
}

/// Numbers can be read in a part of a sequence as well as in the whole.
pub(crate) proof fn shifted(p: Seq<u8>, n: int, at: int)
    requires
        0 <= n,
        0 <= at,
        n + at + 4 <= p.len(),
    ensures
        u32_at(p.skip(n), at) == u32_at(p, n + at),
        u16_at(p.skip(n), at) == u16_at(p, n + at),
{
}

} // verus!
