//! Little-endian fields of fixed-layout binary records.
use vstd::prelude::*;

verus! {

/// The unsigned 32-bit value stored little-endian in `b` at `off..off + 4`.
pub open spec fn le_u32(b: Seq<u8>, off: int) -> int {
    b[off] + b[off + 1] * 256 + b[off + 2] * 65536 + b[off + 3] * 16777216
}

/// The signed (two's complement) 32-bit value stored little-endian in `b` at
/// `off..off + 4`.
pub open spec fn le_i32(b: Seq<u8>, off: int) -> int {
    let u = le_u32(b, off);
    if u < 0x8000_0000 {
        u
    } else {
        u - 0x1_0000_0000
    }
}

/// The four bytes of `x`, least significant first.
pub open spec fn u32_le_bytes(x: u32) -> Seq<u8> {
    seq![(x % 256) as u8, ((x / 256) % 256) as u8, ((x / 65536) % 256) as u8, (x / 16777216) as u8]
}

/// The four bytes of the two's complement representation of `x`, least
/// significant first.
pub open spec fn i32_le_bytes(x: i32) -> Seq<u8> {
    if x >= 0 {
        u32_le_bytes(x as u32)
    } else {
        u32_le_bytes((x + 0x1_0000_0000) as u32)
    }
}

/// Reading back the little-endian bytes of a `u32`, wherever they stand in a
/// buffer, gives the value that was written.
pub proof fn lemma_u32_le_roundtrip(pre: Seq<u8>, x: u32, post: Seq<u8>)
    ensures
        u32_le_bytes(x).len() == 4,
        le_u32(pre + u32_le_bytes(x) + post, pre.len() as int) == x,
{
    let b = pre + u32_le_bytes(x) + post;
    let n = pre.len() as int;
    assert(b[n] == x % 256);
    assert(b[n + 1] == (x / 256) % 256);
    assert(b[n + 2] == (x / 65536) % 256);
    assert(b[n + 3] == x / 16777216);
    assert((x % 256) + ((x / 256) % 256) * 256 + ((x / 65536) % 256) * 65536 + (x / 16777216)
        * 16777216 == x) by (nonlinear_arith)
        requires
            x < 0x1_0000_0000,
    ;
}

/// Reading back the little-endian bytes of an `i32`, wherever they stand in a
/// buffer, gives the value that was written, sign included.
pub proof fn lemma_i32_le_roundtrip(pre: Seq<u8>, x: i32, post: Seq<u8>)
    ensures
        i32_le_bytes(x).len() == 4,
        le_i32(pre + i32_le_bytes(x) + post, pre.len() as int) == x,
{
    if x >= 0 {
        lemma_u32_le_roundtrip(pre, x as u32, post);
    } else {
        lemma_u32_le_roundtrip(pre, (x + 0x1_0000_0000) as u32, post);
    }
}

/// Reads the unsigned 32-bit little-endian value at `off`.
pub fn read_u32_le(b: &[u8], off: usize) -> (v: u32)
    requires
        off + 4 <= b@.len(),
    ensures
        v == le_u32(b@, off as int),
{
    let b0 = b[off] as u32;
    let b1 = b[off + 1] as u32;
    let b2 = b[off + 2] as u32;
    let b3 = b[off + 3] as u32;
    b0 + b1 * 256 + b2 * 65536 + b3 * 16777216
}

/// Reads the signed 32-bit little-endian value at `off`.
pub fn read_i32_le(b: &[u8], off: usize) -> (v: i32)
    requires
        off + 4 <= b@.len(),
    ensures
        v == le_i32(b@, off as int),
{
    let u = read_u32_le(b, off);
    if u < 0x8000_0000 {
        u as i32
    } else {
        let low = (u - 0x8000_0000) as i32;
        low - 0x7fff_ffff - 1
    }
}

/// Reads four consecutive little-endian `u32` values starting at `off`.
pub fn read_u32x4_le(b: &[u8], off: usize) -> (v: [u32; 4])
    requires
        off + 16 <= b@.len(),
    ensures
        forall|i: int| 0 <= i < 4 ==> v@[i] == le_u32(b@, off + 4 * i),
{
    let len = b.len();
    assert(off + 16 <= len);
    [
        read_u32_le(b, off),
        read_u32_le(b, off + 4),
        read_u32_le(b, off + 8),
        read_u32_le(b, off + 12),
    ]
}

/// Copies the 64 bytes at `off..off + 64`.
pub fn read_bytes_64(b: &[u8], off: usize) -> (a: [u8; 64])
    requires
        off + 64 <= b@.len(),
    ensures
        a@ == b@.subrange(off as int, off + 64),
{
    let len = b.len();
    let mut a = [0u8; 64];
    let mut i: usize = 0;
    while i < 64
        invariant
            len == b@.len(),
            off + 64 <= b@.len(),
            i <= 64,
            a@.len() == 64,
            forall|k: int| 0 <= k < i ==> a@[k] == b@[off + k],
        decreases 64 - i,
    {
        a[i] = b[off + i];
        i = i + 1;
    }
    assert(a@ =~= b@.subrange(off as int, off + 64));
    a
}

} // verus!
