//! The only places where the library touches IEEE-754 values. Verified code
//! carries every scalar as its raw 32-bit pattern; the three conversions that
//! are genuinely floating-point (decimal text to single precision, quaternion
//! normalization, and the sRGB-to-SH color transform) happen behind trusted
//! wrappers. Each result is a pure function of the arguments, named by an
//! uninterpreted spec function so that callers' contracts stay exact.

use crate::bits::QuatBits;
use vstd::prelude::*;

verus! {

/// The IEEE-754 single-precision bit pattern denoted by a decimal (or
/// scientific-notation) ASCII token, `None` when the token does not parse
/// as such a number.
pub uninterp spec fn f32_bits_of_decimal(tok: Seq<u8>) -> Option<u32>;

/// The bit patterns of the normalized quaternion whose (w, x, y, z)
/// components have the given bit patterns.
pub uninterp spec fn quat_norm_bits(w: u32, x: u32, y: u32, z: u32) -> QuatBits;

/// The bit pattern of `((v / 255) - 0.5) / C0` in single precision, where
/// `C0 = 0.28209479177387814` is the spherical-harmonics DC constant.
pub uninterp spec fn sh_from_srgb(v: u8) -> u32;

/// Relies on `core::str::from_utf8` and `str::parse` for decimal-to-binary
/// conversion; the `glam::Vec3::splat` round trip only fixes the parsed type
/// to single precision. The result depends on the token's bytes alone.
#[verifier::external_body]
pub fn parse_float_bits(tok: &[u8]) -> (r: Option<u32>)
    ensures
        r == f32_bits_of_decimal(tok@),
{
    core::str::from_utf8(tok)
        .ok()
        .and_then(|s| s.parse().ok())
        .map(|v| glam::Vec3::splat(v).x.to_bits())
}

/// Relies on `glam::Quat::normalize`; `bytemuck::cast` converts each raw bit
/// pattern to the scalar it encodes and `to_bits` converts back. The result
/// depends on the four input bit patterns alone.
#[verifier::external_body]
pub fn normalize_quat_bits(q: QuatBits) -> (r: QuatBits)
    ensures
        r == quat_norm_bits(q.w, q.x, q.y, q.z),
{
    let n = glam::Quat::from_xyzw(
        bytemuck::cast(q.x),
        bytemuck::cast(q.y),
        bytemuck::cast(q.z),
        bytemuck::cast(q.w),
    )
    .normalize();
    QuatBits { w: n.w.to_bits(), x: n.x.to_bits(), y: n.y.to_bits(), z: n.z.to_bits() }
}

/// Relies on `glam::Vec3` component-wise arithmetic in single precision,
/// with `bytemuck::cast` turning each constant's bit pattern into its scalar.
/// Computes `((v / 255) - 0.5) / C0`: the two bit-pattern constants encode
/// one half and the spherical-harmonics DC constant `C0`. The result depends
/// on the byte alone.
#[verifier::external_body]
pub fn srgb_to_sh_bits(v: u8) -> (r: u32)
    ensures
        r == sh_from_srgb(v),
{
    let x = glam::Vec3::splat(v.into());
    let d = glam::Vec3::splat(255u8.into());
    let half = glam::Vec3::splat(bytemuck::cast(0x3F00_0000u32));
    let c0 = glam::Vec3::splat(bytemuck::cast(0x3E90_6EBBu32));
    ((x / d - half) / c0).x.to_bits()
}

} // verus!
