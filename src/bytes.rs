//! Big-endian primitives shared by every reader and writer of the library.
use vstd::prelude::*;

verus! {

/// The big-endian `u16` held by the two bytes of `s` starting at `i`.
pub open spec fn be_u16(s: Seq<u8>, i: int) -> u16 {
    ((s[i] as u16) * 0x100 + (s[i + 1] as u16)) as u16
}

/// The big-endian `u32` held by the four bytes of `s` starting at `i`.
pub open spec fn be_u32(s: Seq<u8>, i: int) -> u32 {
    ((s[i] as u32) * 0x1000000 + (s[i + 1] as u32) * 0x10000 + (s[i + 2] as u32) * 0x100 + (
    s[i + 3] as u32)) as u32
}

/// The big-endian bytes of a `u16`.
pub open spec fn u16_be(v: u16) -> Seq<u8> {
    seq![(v >> 8) as u8, v as u8]
}

/// The big-endian bytes of a `u32`.
pub open spec fn u32_be(v: u32) -> Seq<u8> {
    seq![(v >> 24) as u8, (v >> 16) as u8, (v >> 8) as u8, v as u8]
}

/// The big-endian bytes of an `i32` (two's complement).
pub open spec fn i32_be(v: i32) -> Seq<u8> {
    u32_be(v as u32)
}

/// The big-endian bytes of each value of `vs`, one after the other.
pub open spec fn u32s_be(vs: Seq<u32>) -> Seq<u8>
    decreases vs.len(),
{
    if vs.len() == 0 {
        seq![]
    } else {
        u32s_be(vs.drop_last()) + u32_be(vs.last())
    }
}

/// The big-endian bytes of each value of `vs`, one after the other.
pub open spec fn i32s_be(vs: Seq<i32>) -> Seq<u8>
    decreases vs.len(),
{
    if vs.len() == 0 {
        seq![]
    } else {
        i32s_be(vs.drop_last()) + i32_be(vs.last())
    }
}

proof fn lemma_bytes_of_u32(b0: u8, b1: u8, b2: u8, b3: u8)
    by (bit_vector)
    ensures
        ({
            let v = ((b0 as u32) * 0x1000000 + (b1 as u32) * 0x10000 + (b2 as u32) * 0x100 + (
            b3 as u32)) as u32;
            &&& (v >> 24) as u8 == b0
            &&& (v >> 16) as u8 == b1
            &&& (v >> 8) as u8 == b2
            &&& v as u8 == b3
        }),
{
}

proof fn lemma_bytes_of_u16(b0: u8, b1: u8)
    by (bit_vector)
    ensures
        ({
            let v = ((b0 as u16) * 0x100 + (b1 as u16)) as u16;
            &&& (v >> 8) as u8 == b0
            &&& v as u8 == b1
        }),
{
}

/// Encoding the value read at `i` gives back the four bytes it was read from.
pub proof fn lemma_u32_be_of_read(s: Seq<u8>, i: int)
    requires
        0 <= i,
        i + 4 <= s.len(),
    ensures
        u32_be(be_u32(s, i)) == s.subrange(i, i + 4),
{
    lemma_bytes_of_u32(s[i], s[i + 1], s[i + 2], s[i + 3]);
    assert(u32_be(be_u32(s, i)) =~= s.subrange(i, i + 4));
}


/// Encoding the value read at `i` gives back the two bytes it was read from.
pub proof fn lemma_u16_be_of_read(s: Seq<u8>, i: int)
    requires
        0 <= i,
        i + 2 <= s.len(),
    ensures
        u16_be(be_u16(s, i)) == s.subrange(i, i + 2),
{
    lemma_bytes_of_u16(s[i], s[i + 1]);
    assert(u16_be(be_u16(s, i)) =~= s.subrange(i, i + 2));
}


/// Reads a big-endian `u16` at `pos`.
pub fn read_u16(data: &[u8], pos: usize) -> (r: u16)
    requires
        pos + 2 <= data@.len(),
    ensures
        r == be_u16(data@, pos as int),
{
    (data[pos] as u16) * 0x100 + (data[pos + 1] as u16)
}

/// Reads a big-endian `u32` at `pos`.
pub fn read_u32(data: &[u8], pos: usize) -> (r: u32)
    requires
        pos + 4 <= data@.len(),
    ensures
        r == be_u32(data@, pos as int),
{
    (data[pos] as u32) * 0x1000000 + (data[pos + 1] as u32) * 0x10000 + (data[pos + 2] as u32)
        * 0x100 + (data[pos + 3] as u32)
}

/// Appends the big-endian bytes of `v`.
pub fn push_u16(out: &mut Vec<u8>, v: u16)
    ensures
        final(out)@ == old(out)@ + u16_be(v),
{
    out.push((v >> 8) as u8);
    out.push(v as u8);
    assert(final(out)@ =~= old(out)@ + u16_be(v));
}

/// Appends the big-endian bytes of `v`.
pub fn push_u32(out: &mut Vec<u8>, v: u32)
    ensures
        final(out)@ == old(out)@ + u32_be(v),
{
    out.push((v >> 24) as u8);
    out.push((v >> 16) as u8);
    out.push((v >> 8) as u8);
    out.push(v as u8);
    assert(final(out)@ =~= old(out)@ + u32_be(v));
}

/// Appends the big-endian bytes of `v`.
pub fn push_i32(out: &mut Vec<u8>, v: i32)
    ensures
        final(out)@ == old(out)@ + i32_be(v),
{
    push_u32(out, v as u32);
}

/// Appends the big-endian bytes of every value of `vs`.
pub fn push_u32s(out: &mut Vec<u8>, vs: &[u32])
    ensures
        final(out)@ == old(out)@ + u32s_be(vs@),
{
    let mut i: usize = 0;
    while i < vs.len()
        invariant
            i <= vs@.len(),
            out@ == old(out)@ + u32s_be(vs@.subrange(0, i as int)),
        decreases vs@.len() - i,
    {
        push_u32(out, vs[i]);
        assert(vs@.subrange(0, i + 1).drop_last() =~= vs@.subrange(0, i as int));
        i = i + 1;
    }
    assert(vs@.subrange(0, vs@.len() as int) =~= vs@);
}

/// Appends the bytes `data[start..end]`.
pub fn push_range(out: &mut Vec<u8>, data: &[u8], start: usize, end: usize)
    requires
        start <= end <= data@.len(),
    ensures
        final(out)@ == old(out)@ + data@.subrange(start as int, end as int),
{
    let mut i: usize = start;
    while i < end
        invariant
            start <= i <= end <= data@.len(),
            out@ == old(out)@ + data@.subrange(start as int, i as int),
        decreases end - i,
    {
        out.push(data[i]);
        assert(data@.subrange(start as int, i + 1) =~= data@.subrange(start as int, i as int).push(
            data@[i as int],
        ));
        i = i + 1;
    }
    assert(out@ =~= old(out)@ + data@.subrange(start as int, end as int));
}

/// Adjacent ranges join.
pub proof fn lemma_subrange_split(s: Seq<u8>, a: int, b: int, c: int)
    requires
        0 <= a <= b <= c <= s.len(),
    ensures
        s.subrange(a, c) == s.subrange(a, b) + s.subrange(b, c),
{
    assert(s.subrange(a, c) =~= s.subrange(a, b) + s.subrange(b, c));
}

} // verus!
