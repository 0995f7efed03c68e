use brush_core::bits::{QuatBits, Vec3Bits};
use brush_core::import::{load_splat_from_ply, ImportStep, Importer, PlyError};
use brush_core::splats::Splats;

fn ascii_header(count: usize, props: &[&str]) -> String {
    let mut h = String::new();
    h.push_str("ply\n");
    h.push_str("format ascii 1.0\n");
    h.push_str(&format!("element vertex {}\n", count));
    for p in props {
        h.push_str(&format!("property {}\n", p));
    }
    h.push_str("end_header\n");
    h
}

fn binary_header(count: usize, props: &[&str], big: bool) -> String {
    let mut h = String::new();
    h.push_str("ply\n");
    if big {
        h.push_str("format binary_big_endian 1.0\n");
    } else {
        h.push_str("format binary_little_endian 1.0\n");
    }
    h.push_str(&format!("element vertex {}\n", count));
    for p in props {
        h.push_str(&format!("property {}\n", p));
    }
    h.push_str("end_header\n");
    h
}

fn push_f32(out: &mut Vec<u8>, v: f32, big: bool) {
    let b = if big { v.to_bits().to_be_bytes() } else { v.to_bits().to_le_bytes() };
    out.extend_from_slice(&b);
}

fn f(bits: u32) -> f32 {
    f32::from_bits(bits)
}

/// S1: minimal ASCII file, one point, positions only.
#[test]
fn minimal_ascii_single_point() {
    let mut data = ascii_header(1, &["float x", "float y", "float z"]).into_bytes();
    data.extend_from_slice(b"1 2 3\n");
    let snaps = load_splat_from_ply(data, None).unwrap();
    assert_eq!(snaps.len(), 1);
    let s = &snaps[0];
    assert_eq!(s.num_splats(), 1);
    assert_eq!(
        s.means[0],
        Vec3Bits { x: 1.0f32.to_bits(), y: 2.0f32.to_bits(), z: 3.0f32.to_bits() }
    );
    assert!(s.rotations.is_none());
    assert!(s.log_scales.is_none());
    assert!(s.sh_coeffs.is_none());
    assert!(s.opacities.is_none());
}

/// S2: 50 000 little-endian records with all fields and f_rest_0..8 (K=3):
/// exactly two snapshots, at 25 000 and 50 000 splats, SH interleaved.
#[test]
fn binary_le_full_fields_two_snapshots() {
    let n = 50000usize;
    let mut props: Vec<String> = Vec::new();
    for p in ["x", "y", "z"] {
        props.push(format!("float {}", p));
    }
    for i in 0..3 {
        props.push(format!("float scale_{}", i));
    }
    for i in 0..4 {
        props.push(format!("float rot_{}", i));
    }
    props.push("float opacity".to_string());
    for i in 0..3 {
        props.push(format!("float f_dc_{}", i));
    }
    for i in 0..9 {
        props.push(format!("float f_rest_{}", i));
    }
    let prop_refs: Vec<&str> = props.iter().map(|s| s.as_str()).collect();
    let mut data = binary_header(n, &prop_refs, false).into_bytes();
    for r in 0..n {
        let base = r as f32;
        for v in [base, base + 0.25, base + 0.5] {
            push_f32(&mut data, v, false);
        }
        for v in [0.1f32, 0.2, 0.3] {
            push_f32(&mut data, v, false);
        }
        // unit quaternion already: w=1
        for v in [1.0f32, 0.0, 0.0, 0.0] {
            push_f32(&mut data, v, false);
        }
        push_f32(&mut data, 0.75, false);
        for v in [0.5f32, 0.6, 0.7] {
            push_f32(&mut data, v, false);
        }
        // channel-major rest: red 10,11,12; green 20,21,22; blue 30,31,32
        for v in [10.0f32, 11.0, 12.0, 20.0, 21.0, 22.0, 30.0, 31.0, 32.0] {
            push_f32(&mut data, v, false);
        }
    }
    let snaps = load_splat_from_ply(data, None).unwrap();
    assert_eq!(snaps.len(), 2);
    assert_eq!(snaps[0].num_splats(), 25000);
    assert_eq!(snaps[1].num_splats(), 50000);
    let s = &snaps[1];
    assert_eq!(s.sh_per_splat, 12);
    let sh = s.sh_coeffs.as_ref().unwrap();
    assert_eq!(sh.len(), 50000 * 12);
    // coefficient-major interleaving of record 0
    let expect: [f32; 12] =
        [0.5, 0.6, 0.7, 10.0, 20.0, 30.0, 11.0, 21.0, 31.0, 12.0, 22.0, 32.0];
    for (i, e) in expect.iter().enumerate() {
        assert_eq!(f(sh[i]), *e);
    }
    // parallel vectors (snapshot consistency)
    for snap in &snaps {
        let n = snap.num_splats();
        assert_eq!(snap.rotations.as_ref().unwrap().len(), n);
        assert_eq!(snap.log_scales.as_ref().unwrap().len(), n);
        assert_eq!(snap.opacities.as_ref().unwrap().len(), n);
        assert_eq!(snap.sh_coeffs.as_ref().unwrap().len(), n * snap.sh_per_splat);
    }
}

/// S3: a header without `z` fails before any snapshot.
#[test]
fn missing_required_property() {
    let mut data = ascii_header(10, &["float x", "float y"]).into_bytes();
    for i in 0..10 {
        data.extend_from_slice(format!("{} {}\n", i, i).as_bytes());
    }
    let r = load_splat_from_ply(data, None);
    assert_eq!(r.unwrap_err(), PlyError::MissingRequiredProperty);
}

/// S4: big-endian records with 8-bit sRGB color instead of SH DC floats.
#[test]
fn binary_be_srgb_color() {
    let n = 100usize;
    let props =
        ["float x", "float y", "float z", "uchar red", "uchar green", "uchar blue"];
    let mut data = binary_header(n, &props, true).into_bytes();
    for r in 0..n {
        for v in [r as f32, 0.0, 0.0] {
            push_f32(&mut data, v, true);
        }
        data.push((r % 256) as u8);
        data.push(128);
        data.push(255);
    }
    let snaps = load_splat_from_ply(data, None).unwrap();
    let s = snaps.last().unwrap();
    assert_eq!(s.num_splats(), n);
    assert_eq!(s.sh_per_splat, 3);
    let sh = s.sh_coeffs.as_ref().unwrap();
    let c0 = 0.28209479177387814f64 as f32;
    for r in 0..n {
        let red = (r % 256) as u8;
        let expect = |v: u8| (v as f32 / 255.0 - 0.5) / c0;
        assert_eq!(f(sh[r * 3]), expect(red));
        assert_eq!(f(sh[r * 3 + 1]), expect(128));
        assert_eq!(f(sh[r * 3 + 2]), expect(255));
    }
}

/// S5: stride 3 over 10 records keeps records 0, 3, 6, 9 in order.
#[test]
fn subsample_stride_three() {
    let mut data = ascii_header(10, &["float x", "float y", "float z"]).into_bytes();
    for i in 0..10 {
        data.extend_from_slice(format!("{} 0 0\n", i).as_bytes());
    }
    let snaps = load_splat_from_ply(data, Some(3)).unwrap();
    assert_eq!(snaps.len(), 1);
    let s = &snaps[0];
    assert_eq!(s.num_splats(), 4);
    for (k, idx) in [0usize, 3, 6, 9].iter().enumerate() {
        assert_eq!(f(s.means[k].x), *idx as f32);
    }
}

fn same_payload(encoding: u8) -> Vec<u8> {
    // one logical payload in three encodings: 0 ascii, 1 le, 2 be
    let props = ["float x", "float y", "float z", "float opacity", "float rot_0",
        "float rot_1", "float rot_2", "float rot_3"];
    let rows: [[f32; 8]; 3] = [
        [1.5, -2.25, 3.125, 0.5, 1.0, 2.0, 3.0, 4.0],
        [0.0625, 7.0, -0.5, -1.0, 0.5, 0.5, 0.5, 0.5],
        [1000.0, 0.001953125, 42.0, 2.0, -1.0, 0.0, 0.0, 0.0],
    ];
    if encoding == 0 {
        let mut data = ascii_header(3, &props).into_bytes();
        for row in rows {
            let line: Vec<String> = row.iter().map(|v| format!("{}", v)).collect();
            data.extend_from_slice(line.join(" ").as_bytes());
            data.push(b'\n');
        }
        data
    } else {
        let big = encoding == 2;
        let mut data = binary_header(3, &props, big).into_bytes();
        for row in rows {
            for v in row {
                push_f32(&mut data, v, big);
            }
        }
        data
    }
}

/// P5: ASCII, little-endian and big-endian encodings of one logical payload
/// give byte-identical final snapshots.
#[test]
fn encodings_agree() {
    let a = load_splat_from_ply(same_payload(0), None).unwrap();
    let le = load_splat_from_ply(same_payload(1), None).unwrap();
    let be = load_splat_from_ply(same_payload(2), None).unwrap();
    let last = |v: &Vec<Splats>| -> (Vec<Vec3Bits>, Vec<QuatBits>, Vec<u32>) {
        let s = v.last().unwrap();
        (
            s.means.clone(),
            s.rotations.as_ref().unwrap().clone(),
            s.opacities.as_ref().unwrap().clone(),
        )
    };
    assert_eq!(last(&a), last(&le));
    assert_eq!(last(&a), last(&be));
}

/// P2: quaternions come out unit-length within 1e-6.
#[test]
fn rotation_normalized() {
    let props = ["float x", "float y", "float z", "float rot_0", "float rot_1",
        "float rot_2", "float rot_3"];
    let mut data = ascii_header(2, &props).into_bytes();
    data.extend_from_slice(b"0 0 0 2 3 4 5\n");
    data.extend_from_slice(b"0 0 0 0.1 -0.4 0.25 0.9\n");
    let snaps = load_splat_from_ply(data, None).unwrap();
    let rots = snaps.last().unwrap().rotations.as_ref().unwrap().clone();
    assert_eq!(rots.len(), 2);
    for q in rots {
        let (w, x, y, z) = (f(q.w), f(q.x), f(q.y), f(q.z));
        let norm = (w * w + x * x + y * y + z * z).sqrt();
        assert!((norm - 1.0).abs() <= 1e-6, "norm {}", norm);
    }
    // the first quaternion is 2,3,4,5 scaled: w must be 2/sqrt(54)
    let data2 = {
        let mut d = ascii_header(1, &props).into_bytes();
        d.extend_from_slice(b"0 0 0 2 3 4 5\n");
        d
    };
    let snaps2 = load_splat_from_ply(data2, None).unwrap();
    let q = snaps2[0].rotations.as_ref().unwrap()[0];
    assert!((f(q.w) - 2.0 / 54.0f32.sqrt()).abs() < 1e-6);
}

/// P3 round trip: channel-major f_rest input comes back coefficient-major.
#[test]
fn sh_round_trip_interleaving() {
    let n = 2usize;
    let k = 2usize;
    let mut props: Vec<String> =
        vec!["float x".into(), "float y".into(), "float z".into(), "float f_dc_0".into(),
            "float f_dc_1".into(), "float f_dc_2".into()];
    for i in 0..3 * k {
        props.push(format!("float f_rest_{}", i));
    }
    let prop_refs: Vec<&str> = props.iter().map(|s| s.as_str()).collect();
    let mut data = ascii_header(n, &prop_refs).into_bytes();
    // record j: dc = (d0,d1,d2); rest channel-major [r0 r1 | g0 g1 | b0 b1]
    data.extend_from_slice(b"0 0 0 100 101 102 1 2 3 4 5 6\n");
    data.extend_from_slice(b"0 0 0 200 201 202 7 8 9 10 11 12\n");
    let snaps = load_splat_from_ply(data, None).unwrap();
    let s = snaps.last().unwrap();
    assert_eq!(s.sh_per_splat, 3 + 3 * k);
    let sh: Vec<f32> = s.sh_coeffs.as_ref().unwrap().iter().map(|b| f(*b)).collect();
    let expect: [f32; 18] = [
        100.0, 101.0, 102.0, 1.0, 3.0, 5.0, 2.0, 4.0, 6.0,
        200.0, 201.0, 202.0, 7.0, 9.0, 11.0, 8.0, 10.0, 12.0,
    ];
    assert_eq!(sh, expect.to_vec());
}

/// Truncated binary payload: ends mid-record.
#[test]
fn truncated_binary() {
    let props = ["float x", "float y", "float z"];
    let mut data = binary_header(2, &props, false).into_bytes();
    for v in [1.0f32, 2.0, 3.0] {
        push_f32(&mut data, v, false);
    }
    push_f32(&mut data, 4.0, false);
    let r = load_splat_from_ply(data, None);
    assert_eq!(r.unwrap_err(), PlyError::Truncated);
}

/// Truncated ASCII payload: fewer lines than declared records.
#[test]
fn truncated_ascii() {
    let mut data = ascii_header(3, &["float x", "float y", "float z"]).into_bytes();
    data.extend_from_slice(b"1 2 3\n2 3 4\n");
    let r = load_splat_from_ply(data, None);
    assert_eq!(r.unwrap_err(), PlyError::Truncated);
}

/// A non-numeric ASCII token is an encoding error.
#[test]
fn encoding_error_bad_token() {
    let mut data = ascii_header(1, &["float x", "float y", "float z"]).into_bytes();
    data.extend_from_slice(b"1 oops 3\n");
    let r = load_splat_from_ply(data, None);
    assert_eq!(r.unwrap_err(), PlyError::Encoding);
}

/// A wrong ASCII field count is an encoding error.
#[test]
fn encoding_error_field_count() {
    let mut data = ascii_header(1, &["float x", "float y", "float z"]).into_bytes();
    data.extend_from_slice(b"1 2\n");
    let r = load_splat_from_ply(data, None);
    assert_eq!(r.unwrap_err(), PlyError::Encoding);
}

/// Zero declared records: the import is empty.
#[test]
fn empty_file() {
    let data = ascii_header(0, &["float x", "float y", "float z"]).into_bytes();
    let r = load_splat_from_ply(data, None);
    assert_eq!(r.unwrap_err(), PlyError::Empty);
}

/// Bad magic and unknown encodings are invalid headers.
#[test]
fn invalid_headers() {
    let r = load_splat_from_ply(b"plx\nformat ascii 1.0\nend_header\n".to_vec(), None);
    assert_eq!(r.unwrap_err(), PlyError::InvalidHeader);
    let r = load_splat_from_ply(
        b"ply\nformat utf8 1.0\nelement vertex 0\nproperty float x\nend_header\n".to_vec(),
        None,
    );
    assert_eq!(r.unwrap_err(), PlyError::InvalidHeader);
    let r = load_splat_from_ply(b"ply\nformat ascii 1.0\n".to_vec(), None);
    assert_eq!(r.unwrap_err(), PlyError::InvalidHeader);
    let r = load_splat_from_ply(
        b"ply\nformat ascii 1.0\nproperty float x\nend_header\n".to_vec(),
        None,
    );
    assert_eq!(r.unwrap_err(), PlyError::InvalidHeader);
}

/// Comments, CRLF endings, unknown properties, and skipped scalar types.
#[test]
fn tolerated_header_and_ignored_fields() {
    let mut data = Vec::new();
    data.extend_from_slice(b"ply\r\n");
    data.extend_from_slice(b"format binary_little_endian 1.0\r\n");
    data.extend_from_slice(b"comment made by a test\r\n");
    data.extend_from_slice(b"element vertex 1\r\n");
    data.extend_from_slice(b"property float x\r\n");
    data.extend_from_slice(b"property double waste\r\n");
    data.extend_from_slice(b"property int other\r\n");
    data.extend_from_slice(b"property float y\r\n");
    data.extend_from_slice(b"property float z\r\n");
    data.extend_from_slice(b"end_header\r\n");
    push_f32(&mut data, 5.0, false);
    data.extend_from_slice(&[0u8; 12]);  // one double, one int, skipped
    push_f32(&mut data, 6.0, false);
    push_f32(&mut data, 7.0, false);
    let snaps = load_splat_from_ply(data, None).unwrap();
    assert_eq!(snaps[0].num_splats(), 1);
    assert_eq!(f(snaps[0].means[0].x), 5.0);
    assert_eq!(f(snaps[0].means[0].y), 6.0);
    assert_eq!(f(snaps[0].means[0].z), 7.0);
}

/// The step-wise importer reports yield hints every YIELD_EVERY records and
/// ends with the same snapshot as the one-shot loader.
#[test]
fn stepwise_importer_matches_loader() {
    let mut data = ascii_header(1200, &["float x", "float y", "float z"]).into_bytes();
    for i in 0..1200 {
        data.extend_from_slice(format!("{} 1 2\n", i).as_bytes());
    }
    let mut imp = Importer::new(data.clone(), None).unwrap();
    let mut yields = 0usize;
    let mut finals: Vec<Splats> = Vec::new();
    while !imp.is_done() {
        match imp.step().unwrap() {
            ImportStep::Parsed { yield_hint, snapshot } => {
                if yield_hint {
                    yields += 1;
                }
                assert!(snapshot.is_none());
            },
            ImportStep::Done(s) => finals.push(s),
        }
    }
    assert_eq!(yields, 3);  // records 0, 500, 1000
    assert_eq!(finals.len(), 1);
    let snaps = load_splat_from_ply(data, None).unwrap();
    assert_eq!(finals[0].means, snaps[0].means);
}

/// A stride beyond the record count still keeps the first record, and a
/// stride of one means no sub-sampling at all.
#[test]
fn stride_edge_cases() {
    let build = || {
        let mut d = ascii_header(10, &["float x", "float y", "float z"]).into_bytes();
        for i in 0..10 {
            d.extend_from_slice(format!("{} 0 0\n", i).as_bytes());
        }
        d
    };
    let snaps = load_splat_from_ply(build(), Some(100)).unwrap();
    assert_eq!(snaps.last().unwrap().num_splats(), 1);
    assert_eq!(f(snaps.last().unwrap().means[0].x), 0.0);
    let all = load_splat_from_ply(build(), Some(1)).unwrap();
    let none = load_splat_from_ply(build(), None).unwrap();
    assert_eq!(all.last().unwrap().means, none.last().unwrap().means);
    assert_eq!(all.last().unwrap().num_splats(), 10);
}

/// Elements other than `vertex` may be declared; their properties are
/// ignored.
#[test]
fn other_elements_ignored() {
    let mut data = Vec::new();
    data.extend_from_slice(b"ply\nformat ascii 1.0\n");
    data.extend_from_slice(b"element vertex 1\n");
    data.extend_from_slice(b"property float x\nproperty float y\nproperty float z\n");
    data.extend_from_slice(b"element face 0\n");
    data.extend_from_slice(b"property uchar corner\n");
    data.extend_from_slice(b"end_header\n");
    data.extend_from_slice(b"4 5 6\n");
    let snaps = load_splat_from_ply(data, None).unwrap();
    assert_eq!(snaps[0].num_splats(), 1);
    assert_eq!(f(snaps[0].means[0].y), 5.0);
}

/// When both SH DC floats and sRGB bytes are declared, the later property
/// in record order wins, field by field.
#[test]
fn rgb_overrides_earlier_dc() {
    let props = ["float x", "float y", "float z", "float f_dc_0", "float f_dc_1",
        "float f_dc_2", "uchar red", "uchar green", "uchar blue"];
    let mut data = ascii_header(1, &props).into_bytes();
    data.extend_from_slice(b"0 0 0 9 9 9 0 128 255\n");
    let snaps = load_splat_from_ply(data, None).unwrap();
    let sh = snaps[0].sh_coeffs.as_ref().unwrap();
    let c0 = 0.28209479177387814f64 as f32;
    let expect = |v: u8| ((v as f32 / 255.0 - 0.5) / c0).to_bits();
    assert_eq!(sh[0], expect(0));
    assert_eq!(sh[1], expect(128));
    assert_eq!(sh[2], expect(255));
}

/// Tokens in columns of unrecognized scalar types are consumed unchecked.
#[test]
fn ignored_ascii_columns_skip_validation() {
    let props = ["float x", "int tag", "float y", "float z"];
    let mut data = ascii_header(1, &props).into_bytes();
    data.extend_from_slice(b"1 zzz 2 3\n");
    let snaps = load_splat_from_ply(data, None).unwrap();
    assert_eq!(f(snaps[0].means[0].x), 1.0);
    assert_eq!(f(snaps[0].means[0].z), 3.0);
}

/// The IoSource variant carries the shell's message through unchanged.
#[test]
fn io_source_error_value() {
    let e = PlyError::IoSource(String::from("device unplugged"));
    assert!(matches!(e, PlyError::IoSource(ref m) if m == "device unplugged"));
}
