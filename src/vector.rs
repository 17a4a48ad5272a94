//! Small vectors of the asset formats. Floats are held as their IEEE-754 bits.
use vstd::prelude::*;

use crate::bytes::{push_u32, u32_be};
use crate::quant::{dequantize, dequantized_bits};

verus! {

#[derive(Clone, Copy, Debug, PartialEq, Eq, Structural)]
pub struct Vector2 {
    pub x: u32,
    pub y: u32,
}

#[derive(Clone, Copy, Debug, PartialEq, Eq, Structural)]
pub struct Vector3 {
    pub x: u32,
    pub y: u32,
    pub z: u32,
}

#[derive(Clone, Copy, Debug, PartialEq, Eq, Structural)]
pub struct Vector4 {
    pub x: u32,
    pub y: u32,
    pub z: u32,
    pub w: u32,
}

/// Three quantized components: each stands for its value divided by 16384.
#[derive(Clone, Copy, Debug, PartialEq, Eq, Structural)]
pub struct Vector3i16 {
    pub x: i16,
    pub y: i16,
    pub z: i16,
}

/// Four quantized components: each stands for its value divided by 16384.
#[derive(Clone, Copy, Debug, PartialEq, Eq, Structural)]
pub struct Vector4i16 {
    pub x: i16,
    pub y: i16,
    pub z: i16,
    pub w: i16,
}

pub open spec fn vector3_bytes(v: Vector3) -> Seq<u8> {
    u32_be(v.x) + u32_be(v.y) + u32_be(v.z)
}

pub open spec fn vector4_bytes(v: Vector4) -> Seq<u8> {
    u32_be(v.x) + u32_be(v.y) + u32_be(v.z) + u32_be(v.w)
}

/// Appends the bytes of a `Vector3`.
pub fn push_vector3(out: &mut Vec<u8>, v: &Vector3)
    ensures
        final(out)@ == old(out)@ + vector3_bytes(*v),
{
    push_u32(out, v.x);
    push_u32(out, v.y);
    push_u32(out, v.z);
    assert(final(out)@ =~= old(out)@ + vector3_bytes(*v));
}

/// Appends the bytes of a `Vector4`.
pub fn push_vector4(out: &mut Vec<u8>, v: &Vector4)
    ensures
        final(out)@ == old(out)@ + vector4_bytes(*v),
{
    push_u32(out, v.x);
    push_u32(out, v.y);
    push_u32(out, v.z);
    push_u32(out, v.w);
    assert(final(out)@ =~= old(out)@ + vector4_bytes(*v));
}


impl Vector4 {
    /// The first three components.
    pub fn truncate(&self) -> (r: Vector3)
        ensures
            r == (Vector3 { x: self.x, y: self.y, z: self.z }),
    {
        Vector3 { x: self.x, y: self.y, z: self.z }
    }
}

impl Vector4i16 {
    /// The first three components.
    pub fn truncate(&self) -> (r: Vector3i16)
        ensures
            r == (Vector3i16 { x: self.x, y: self.y, z: self.z }),
    {
        Vector3i16 { x: self.x, y: self.y, z: self.z }
    }
}

impl Vector3i16 {
    /// The float vector this stands for: each component divided by 16384.
    pub fn dequantize(&self) -> (r: Vector3)
        ensures
            r == (Vector3 {
                x: dequantized_bits(self.x),
                y: dequantized_bits(self.y),
                z: dequantized_bits(self.z),
            }),
    {
        Vector3 { x: dequantize(self.x), y: dequantize(self.y), z: dequantize(self.z) }
    }
}

} // verus!
