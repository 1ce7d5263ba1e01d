//! Big-endian integer views of byte sequences, shared by the reader and the writer.

use vstd::prelude::*;

verus! {

/// Unsigned 16-bit big-endian value stored at `p`.
pub open spec fn be_u16(s: Seq<u8>, p: int) -> int {
    s[p] as int * 256 + s[p + 1] as int
}

/// Unsigned 32-bit big-endian value stored at `p`.
pub open spec fn be_u32(s: Seq<u8>, p: int) -> int {
    be_u16(s, p) * 65536 + be_u16(s, p + 2)
}

/// Unsigned 64-bit big-endian value stored at `p`.
pub open spec fn be_u64(s: Seq<u8>, p: int) -> int {
    be_u32(s, p) * 4294967296 + be_u32(s, p + 4)
}

/// Two's-complement reading of a 16-bit pattern.
pub open spec fn signed16(v: int) -> int {
    if v >= 32768 { v - 65536 } else { v }
}

/// Two's-complement reading of a 32-bit pattern.
pub open spec fn signed32(v: int) -> int {
    if v >= 2147483648 { v - 4294967296 } else { v }
}

/// Signed 16-bit big-endian value stored at `p`.
pub open spec fn be_i16(s: Seq<u8>, p: int) -> int {
    signed16(be_u16(s, p))
}

/// Signed 32-bit big-endian value stored at `p`.
pub open spec fn be_i32(s: Seq<u8>, p: int) -> int {
    signed32(be_u32(s, p))
}

/// Big-endian encoding of a 16-bit value.
pub open spec fn enc_u16(v: int) -> Seq<u8> {
    seq![(v / 256) as u8, (v % 256) as u8]
}

/// Big-endian encoding of a 32-bit value.
pub open spec fn enc_u32(v: int) -> Seq<u8> {
    enc_u16(v / 65536) + enc_u16(v % 65536)
}

/// Big-endian encoding of a signed 32-bit value, as its two's-complement pattern.
pub open spec fn enc_i32(v: int) -> Seq<u8> {
    if v < 0 { enc_u32(v + 4294967296) } else { enc_u32(v) }
}

/// Appends the big-endian bytes of `v`.
pub fn push_u16(out: &mut Vec<u8>, v: u16)
    ensures
        final(out)@ == old(out)@ + enc_u16(v as int),
{
    out.push((v / 256) as u8);
    out.push((v % 256) as u8);
    assert(final(out)@ =~= old(out)@ + enc_u16(v as int));
}

/// Appends the big-endian bytes of `v`.
pub fn push_u32(out: &mut Vec<u8>, v: u32)
    ensures
        final(out)@ == old(out)@ + enc_u32(v as int),
{
    push_u16(out, (v / 65536) as u16);
    push_u16(out, (v % 65536) as u16);
    assert(final(out)@ =~= old(out)@ + enc_u32(v as int));
}

/// Appends the big-endian two's-complement bytes of `v`.
pub fn push_i32(out: &mut Vec<u8>, v: i32)
    ensures
        final(out)@ == old(out)@ + enc_i32(v as int),
{
    if v < 0 {
        push_u32(out, (v as i64 + 4294967296i64) as u32);
    } else {
        push_u32(out, v as u32);
    }
}

/// Appends every byte of `src`.
pub fn push_all(out: &mut Vec<u8>, src: &[u8])
    ensures
        final(out)@ == old(out)@ + src@,
{
    let mut i: usize = 0;
    while i < src.len()
        invariant
            0 <= i <= src@.len(),
            out@ == old(out)@ + src@.subrange(0, i as int),
        decreases src@.len() - i,
    {
        out.push(src[i]);
        i = i + 1;
        assert(out@ =~= old(out)@ + src@.subrange(0, i as int));
    }
    assert(src@.subrange(0, src@.len() as int) =~= src@);
}

} // verus!
