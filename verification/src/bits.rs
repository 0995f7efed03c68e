use vstd::prelude::*;

verus! {

/// Bit pattern of the IEEE-754 single-precision value 1.0.
pub const F32_ONE_BITS: u32 = 0x3F80_0000;

/// Bit patterns of a three-component vector of IEEE-754 single-precision
/// scalars. The importer never interprets the payload numerically, so the
/// components are carried as raw 32-bit patterns.
#[derive(Clone, Copy, PartialEq, Eq, Structural, Debug)]
pub struct Vec3Bits {
    pub x: u32,
    pub y: u32,
    pub z: u32,
}

/// Bit patterns of a quaternion stored in (w, x, y, z) order.
#[derive(Clone, Copy, PartialEq, Eq, Structural, Debug)]
pub struct QuatBits {
    pub w: u32,
    pub x: u32,
    pub y: u32,
    pub z: u32,
}

impl Vec3Bits {
    /// The all-zero vector (bit pattern of (0.0, 0.0, 0.0)).
    pub fn zero() -> (r: Vec3Bits)
        ensures
            r == (Vec3Bits { x: 0u32, y: 0u32, z: 0u32 }),
    {
        Vec3Bits { x: 0, y: 0, z: 0 }
    }
}

impl QuatBits {
    /// The identity quaternion (bit pattern of (1.0, 0.0, 0.0, 0.0) in
    /// (w, x, y, z) order).
    pub fn identity() -> (r: QuatBits)
        ensures
            r == (QuatBits { w: F32_ONE_BITS, x: 0u32, y: 0u32, z: 0u32 }),
    {
        QuatBits { w: F32_ONE_BITS, x: 0, y: 0, z: 0 }
    }
}

/// The 32-bit word stored as the little-endian bytes `b0 b1 b2 b3`.
pub open spec fn u32_le(b0: u8, b1: u8, b2: u8, b3: u8) -> u32 {
    (b0 + b1 * 0x100 + b2 * 0x1_0000 + b3 * 0x100_0000) as u32
}

/// The 32-bit word stored as the big-endian bytes `b0 b1 b2 b3`.
pub open spec fn u32_be(b0: u8, b1: u8, b2: u8, b3: u8) -> u32 {
    u32_le(b3, b2, b1, b0)
}

/// Assembles a 32-bit word from little-endian bytes.
pub fn u32_from_le(b0: u8, b1: u8, b2: u8, b3: u8) -> (r: u32)
    ensures
        r == u32_le(b0, b1, b2, b3),
{
    (b0 as u32) + (b1 as u32) * 0x100 + (b2 as u32) * 0x1_0000 + (b3 as u32) * 0x100_0000
}

/// Assembles a 32-bit word from big-endian bytes.
pub fn u32_from_be(b0: u8, b1: u8, b2: u8, b3: u8) -> (r: u32)
    ensures
        r == u32_be(b0, b1, b2, b3),
{
    u32_from_le(b3, b2, b1, b0)
}

} // verus!
