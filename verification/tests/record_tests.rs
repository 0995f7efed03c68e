use brush_core::bits::{u32_from_be, u32_from_le, QuatBits, Vec3Bits};
use brush_core::record::{interleave_coeffs, PropValue, RawRecord};
use brush_core::text::{bytes_eq, parse_u32_bytes, parse_u8_bytes, starts_with, tokenize};

/// A fresh record starts at the identity rotation and zeros elsewhere.
#[test]
fn record_defaults() {
    let r = RawRecord::new();
    assert_eq!(r.mean, Vec3Bits { x: 0, y: 0, z: 0 });
    assert_eq!(r.scale, Vec3Bits { x: 0, y: 0, z: 0 });
    assert_eq!(r.opacity, 0);
    assert_eq!(r.rotation, QuatBits { w: 1.0f32.to_bits(), x: 0, y: 0, z: 0 });
    assert_eq!((r.sh_dc0, r.sh_dc1, r.sh_dc2), (0, 0, 0));
    assert!(r.sh_rest.is_empty());
}

/// The property dispatch table, including the quaternion's w-first order and
/// the growth of the f_rest scratch vector.
#[test]
fn set_and_get_properties() {
    let mut r = RawRecord::new();
    r.set_property(b"x", PropValue::Float(1.5f32.to_bits()));
    r.set_property(b"rot_0", PropValue::Float(0.5f32.to_bits()));
    r.set_property(b"rot_3", PropValue::Float(0.25f32.to_bits()));
    r.set_property(b"opacity", PropValue::Float(0.75f32.to_bits()));
    r.set_property(b"scale_2", PropValue::Float(2.0f32.to_bits()));
    r.set_property(b"f_rest_4", PropValue::Float(9.0f32.to_bits()));
    r.set_property(b"f_rest_1", PropValue::Float(8.0f32.to_bits()));
    r.set_property(b"nonsense", PropValue::Float(7.0f32.to_bits()));
    r.set_property(b"x", PropValue::UChar(3));  // wrong kind: ignored
    assert_eq!(r.mean.x, 1.5f32.to_bits());
    assert_eq!(r.rotation.w, 0.5f32.to_bits());
    assert_eq!(r.rotation.z, 0.25f32.to_bits());
    assert_eq!(r.opacity, 0.75f32.to_bits());
    assert_eq!(r.scale.z, 2.0f32.to_bits());
    assert_eq!(r.sh_rest.len(), 5);
    assert_eq!(r.sh_rest[4], 9.0f32.to_bits());
    assert_eq!(r.sh_rest[1], 8.0f32.to_bits());
    assert_eq!(r.sh_rest[0], 0);
    assert_eq!(r.get_bits(b"x"), Some(1.5f32.to_bits()));
    assert_eq!(r.get_bits(b"rot_0"), Some(0.5f32.to_bits()));
    assert_eq!(r.get_bits(b"f_rest_4"), Some(9.0f32.to_bits()));
    assert_eq!(r.get_bits(b"f_rest_9"), None);
    assert_eq!(r.get_bits(b"nonsense"), None);
}

/// The sRGB color path writes SH DC values through the analytic constant.
#[test]
fn srgb_channels() {
    let mut r = RawRecord::new();
    r.set_property(b"red", PropValue::UChar(0));
    r.set_property(b"green", PropValue::UChar(128));
    r.set_property(b"blue", PropValue::UChar(255));
    let c0 = 0.28209479177387814f64 as f32;
    let expect = |v: u8| ((v as f32 / 255.0 - 0.5) / c0).to_bits();
    assert_eq!(r.sh_dc0, expect(0));
    assert_eq!(r.sh_dc1, expect(128));
    assert_eq!(r.sh_dc2, expect(255));
}

/// The interleave puts DC first, then channel triples per coefficient.
#[test]
fn interleave_layout() {
    // channel-major with K=2: red [1,2], green [3,4], blue [5,6]
    let rest: Vec<u32> = vec![1, 2, 3, 4, 5, 6];
    let out = interleave_coeffs(100, 101, 102, &rest);
    assert_eq!(out, vec![100, 101, 102, 1, 3, 5, 2, 4, 6]);
    let out = interleave_coeffs(9, 8, 7, &[]);
    assert_eq!(out, vec![9, 8, 7]);
}

/// Endianness assembly of 32-bit words.
#[test]
fn word_assembly() {
    assert_eq!(u32_from_le(0x78, 0x56, 0x34, 0x12), 0x12345678);
    assert_eq!(u32_from_be(0x12, 0x34, 0x56, 0x78), 0x12345678);
    assert_eq!(u32_from_le(0, 0, 0, 0), 0);
    assert_eq!(u32_from_be(0xFF, 0xFF, 0xFF, 0xFF), u32::MAX);
}

/// Tokenizing and small decimal parsing.
#[test]
fn text_utilities() {
    let toks = tokenize(b"  one\ttwo  three\r");
    assert_eq!(toks, vec![b"one".to_vec(), b"two".to_vec(), b"three".to_vec()]);
    assert_eq!(tokenize(b""), Vec::<Vec<u8>>::new());
    assert_eq!(parse_u32_bytes(b"0"), Some(0));
    assert_eq!(parse_u32_bytes(b"+250"), Some(250));
    assert_eq!(parse_u32_bytes(b"4294967295"), Some(u32::MAX));
    assert_eq!(parse_u32_bytes(b"4294967296"), None);
    assert_eq!(parse_u32_bytes(b""), None);
    assert_eq!(parse_u32_bytes(b"12a"), None);
    assert_eq!(parse_u8_bytes(b"255"), Some(255));
    assert_eq!(parse_u8_bytes(b"256"), None);
    assert!(bytes_eq(b"abc", b"abc"));
    assert!(!bytes_eq(b"abc", b"abd"));
    assert!(!bytes_eq(b"abc", b"ab"));
    assert!(starts_with(b"f_rest_12", b"f_rest_"));
    assert!(!starts_with(b"f_res", b"f_rest_"));
}
