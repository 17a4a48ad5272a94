//! Reading fields one after the other from a byte buffer. Each reader states
//! that the bytes from a starting point to the new position are the bytes up
//! to the old position followed by the encoding of what it read.
use vstd::prelude::*;

use crate::vector::{vector3_bytes, vector4_bytes, Vector3, Vector4};
use crate::bytes::{
    be_u16, be_u32, i32_be, i32s_be, lemma_u16_be_of_read, lemma_u32_be_of_read, read_u16, read_u32,
    u16_be, u32_be, u32s_be,
};

verus! {

pub fn take_u32(data: &[u8], pos: usize, Ghost(start): Ghost<int>) -> (r: u32)
    requires
        0 <= start <= pos,
        pos + 4 <= data@.len(),
    ensures
        r == be_u32(data@, pos as int),
        data@.subrange(start, pos + 4) == data@.subrange(start, pos as int) + u32_be(r),
{
    let r = read_u32(data, pos);
    proof {
        lemma_u32_be_of_read(data@, pos as int);
        assert(data@.subrange(start, pos + 4) =~= data@.subrange(start, pos as int)
            + data@.subrange(pos as int, pos + 4));
    }
    r
}

pub fn take_i32(data: &[u8], pos: usize, Ghost(start): Ghost<int>) -> (r: i32)
    requires
        0 <= start <= pos,
        pos + 4 <= data@.len(),
    ensures
        r == be_u32(data@, pos as int) as i32,
        data@.subrange(start, pos + 4) == data@.subrange(start, pos as int) + i32_be(r),
{
    let u = take_u32(data, pos, Ghost(start));
    let r: i32 = #[verifier::truncate] (u as i32);
    assert((r as u32) == u) by (bit_vector)
        requires
            r == (u as i32),
    ;
    r
}

pub fn take_u16(data: &[u8], pos: usize, Ghost(start): Ghost<int>) -> (r: u16)
    requires
        0 <= start <= pos,
        pos + 2 <= data@.len(),
    ensures
        r == be_u16(data@, pos as int),
        data@.subrange(start, pos + 2) == data@.subrange(start, pos as int) + u16_be(r),
{
    let r = read_u16(data, pos);
    proof {
        lemma_u16_be_of_read(data@, pos as int);
        assert(data@.subrange(start, pos + 2) =~= data@.subrange(start, pos as int)
            + data@.subrange(pos as int, pos + 2));
    }
    r
}

pub fn take_u8(data: &[u8], pos: usize, Ghost(start): Ghost<int>) -> (r: u8)
    requires
        0 <= start <= pos,
        pos + 1 <= data@.len(),
    ensures
        r == data@[pos as int],
        data@.subrange(start, pos + 1) == data@.subrange(start, pos as int) + seq![r],
{
    let r = data[pos];
    assert(data@.subrange(start, pos + 1) =~= data@.subrange(start, pos as int) + seq![r]);
    r
}

/// `n` bytes, copied.
pub fn take_bytes(data: &[u8], pos: usize, n: usize, Ghost(start): Ghost<int>) -> (r: Vec<u8>)
    requires
        0 <= start <= pos,
        pos + n <= data@.len(),
    ensures
        r@ == data@.subrange(pos as int, pos + n),
        data@.subrange(start, pos + n) == data@.subrange(start, pos as int) + r@,
{
    let mut r: Vec<u8> = Vec::new();
    let len = data.len();
    assert(pos + n <= len);
    crate::bytes::push_range(&mut r, data, pos, pos + n);
    assert(data@.subrange(start, pos + n) =~= data@.subrange(start, pos as int) + r@);
    r
}

/// `n` big-endian `u32` values.
pub fn take_u32s(data: &[u8], pos: usize, n: usize, Ghost(start): Ghost<int>) -> (r: Vec<u32>)
    requires
        0 <= start <= pos,
        pos + 4 * n <= data@.len(),
    ensures
        r@.len() == n,
        data@.subrange(start, pos + 4 * n) == data@.subrange(start, pos as int) + u32s_be(r@),
{
    let mut r: Vec<u32> = Vec::new();
    let len = data.len();
    let mut p: usize = pos;
    let mut i: usize = 0;
    while i < n
        invariant
            0 <= start <= pos,
            pos + 4 * n <= data@.len(),
            len == data@.len(),
            i <= n,
            p == pos + 4 * i,
            r@.len() == i,
            data@.subrange(start, p as int) == data@.subrange(start, pos as int) + u32s_be(r@),
        decreases n - i,
    {
        let v = take_u32(data, p, Ghost(start));
        let ghost before = r@;
        r.push(v);
        assert(r@.drop_last() =~= before);
        assert(data@.subrange(start, pos as int) + u32s_be(before) + u32_be(v) =~= data@.subrange(
            start,
            pos as int,
        ) + u32s_be(r@));
        p = p + 4;
        i = i + 1;
    }
    r
}

/// A record that can be read from a byte buffer, and the bytes it is read from.
pub trait Encoded: Sized {
    /// The bytes the record is read from.
    spec fn encoding(&self) -> Seq<u8>;

    /// Where a record that starts at `pos` ends, if the bytes hold one.
    spec fn end_at(data: Seq<u8>, pos: int, extra: nat) -> Option<int>;

    /// Reads one record at `pos`; `extra` is a size that the record's layout
    /// needs from outside, if any.
    fn parse_at(data: &[u8], pos: usize, extra: usize) -> (r: Option<(Self, usize)>)
        requires
            pos <= data@.len(),
        ensures
            r is Some <==> Self::end_at(data@, pos as int, extra as nat) is Some,
            r matches Some((v, end)) ==> Self::end_at(data@, pos as int, extra as nat) == Some(
                end as int,
            ) && pos <= end <= data@.len() && data@.subrange(pos as int, end as int)
                == v.encoding(),
    ;
}

/// Where `n` records laid one after the other from `pos` end.
pub open spec fn list_end<T: Encoded>(data: Seq<u8>, pos: int, n: nat, extra: nat) -> Option<int>
    decreases n,
{
    if n == 0 {
        Some(pos)
    } else {
        match T::end_at(data, pos, extra) {
            Some(e) => list_end::<T>(data, e, (n - 1) as nat, extra),
            None => None,
        }
    }
}

/// The records' bytes, one after the other.
pub open spec fn list_encoding<T: Encoded>(vs: Seq<T>) -> Seq<u8>
    decreases vs.len(),
{
    if vs.len() == 0 {
        seq![]
    } else {
        list_encoding(vs.drop_last()) + vs.last().encoding()
    }
}

/// Reads `n` records one after the other from `pos`.
pub fn parse_list<T: Encoded>(data: &[u8], pos: usize, n: usize, extra: usize) -> (r: Option<
    (Vec<T>, usize),
>)
    requires
        pos <= data@.len(),
    ensures
        r is Some <==> list_end::<T>(data@, pos as int, n as nat, extra as nat) is Some,
        r matches Some((vs, end)) ==> list_end::<T>(data@, pos as int, n as nat, extra as nat)
            == Some(end as int) && pos <= end <= data@.len() && vs@.len() == n && data@.subrange(
            pos as int,
            end as int,
        ) == list_encoding(vs@),
{
    let mut vs: Vec<T> = Vec::new();
    let mut p: usize = pos;
    let mut i: usize = 0;
    assert(data@.subrange(pos as int, pos as int) =~= Seq::<u8>::empty());
    while i < n
        invariant
            pos <= p <= data@.len(),
            i <= n,
            list_end::<T>(data@, pos as int, n as nat, extra as nat) == list_end::<T>(
                data@,
                p as int,
                (n - i) as nat,
                extra as nat,
            ),
            vs@.len() == i,
            data@.subrange(pos as int, p as int) == list_encoding(vs@),
        decreases n - i,
    {
        let (v, end) = match T::parse_at(data, p, extra) {
            Some(found) => found,
            None => {
                return None;
            },
        };
        proof {
            crate::bytes::lemma_subrange_split(data@, pos as int, p as int, end as int);
        }
        let ghost before = vs@;
        vs.push(v);
        assert(vs@.drop_last() =~= before);
        p = end;
        i = i + 1;
    }
    Some((vs, p))
}

/// `n` big-endian `i32` values.
pub fn take_i32s(data: &[u8], pos: usize, n: usize, Ghost(start): Ghost<int>) -> (r: Vec<i32>)
    requires
        0 <= start <= pos,
        pos + 4 * n <= data@.len(),
    ensures
        r@.len() == n,
        data@.subrange(start, pos + 4 * n) == data@.subrange(start, pos as int) + i32s_be(r@),
{
    let mut r: Vec<i32> = Vec::new();
    let len = data.len();
    let mut p: usize = pos;
    let mut i: usize = 0;
    while i < n
        invariant
            0 <= start <= pos,
            pos + 4 * n <= data@.len(),
            len == data@.len(),
            i <= n,
            p == pos + 4 * i,
            r@.len() == i,
            data@.subrange(start, p as int) == data@.subrange(start, pos as int) + i32s_be(r@),
        decreases n - i,
    {
        let v = take_i32(data, p, Ghost(start));
        let ghost before = r@;
        r.push(v);
        assert(r@.drop_last() =~= before);
        assert(data@.subrange(start, pos as int) + i32s_be(before) + i32_be(v) =~= data@.subrange(
            start,
            pos as int,
        ) + i32s_be(r@));
        p = p + 4;
        i = i + 1;
    }
    r
}

pub fn take_vector3(data: &[u8], pos: usize, Ghost(start): Ghost<int>) -> (r: Vector3)
    requires
        0 <= start <= pos,
        pos + 12 <= data@.len(),
    ensures
        data@.subrange(start, pos + 12) == data@.subrange(start, pos as int) + vector3_bytes(r),
{
    let len = data.len();
    assert(pos + 12 <= len);
    let x = take_u32(data, pos, Ghost(start));
    let y = take_u32(data, pos + 4, Ghost(start));
    let z = take_u32(data, pos + 8, Ghost(start));
    let r = Vector3 { x, y, z };
    assert(data@.subrange(start, pos as int) + u32_be(x) + u32_be(y) + u32_be(z) =~= data@.subrange(
        start,
        pos as int,
    ) + vector3_bytes(r));
    r
}

pub fn take_vector4(data: &[u8], pos: usize, Ghost(start): Ghost<int>) -> (r: Vector4)
    requires
        0 <= start <= pos,
        pos + 16 <= data@.len(),
    ensures
        data@.subrange(start, pos + 16) == data@.subrange(start, pos as int) + vector4_bytes(r),
{
    let len = data.len();
    assert(pos + 16 <= len);
    let x = take_u32(data, pos, Ghost(start));
    let y = take_u32(data, pos + 4, Ghost(start));
    let z = take_u32(data, pos + 8, Ghost(start));
    let w = take_u32(data, pos + 12, Ghost(start));
    let r = Vector4 { x, y, z, w };
    assert(data@.subrange(start, pos as int) + u32_be(x) + u32_be(y) + u32_be(z) + u32_be(w)
        =~= data@.subrange(start, pos as int) + vector4_bytes(r));
    r
}

} // verus!
