//! One splat record as it is parsed: named scalar fields set by property
//! name, the higher-order SH coefficients collected channel-major in a
//! scratch vector, and the interleaving that puts them in the canonical
//! coefficient-major order.

use crate::bits::{u32_be, u32_from_be, u32_from_le, u32_le, QuatBits, Vec3Bits, F32_ONE_BITS};
use crate::floats::{f32_bits_of_decimal, parse_float_bits, sh_from_srgb, srgb_to_sh_bits};
use crate::header::{PropView, PropertyDecl, ScalarType};
use crate::text::{bytes_eq, is_prefix_of, parse_u32_bytes, parse_u32_dec, starts_with, tokenize, tokens_of};
use vstd::prelude::*;
use vstd::string::StringSliceAdditionalSpecFns;

verus! {

/// One scalar read from a record, as the record dispatcher sees it.
#[derive(Clone, Copy, PartialEq, Eq, Structural, Debug)]
pub enum PropValue {
    /// The bit pattern of a single-precision value.
    Float(u32),
    /// An 8-bit color channel.
    UChar(u8),
}

/// One parsed splat record. Scalars are raw single-precision bit patterns;
/// `sh_rest` holds the higher-order SH coefficients in on-disk channel-major
/// order, grown on demand as `f_rest_{i}` properties arrive.
#[derive(Debug)]
pub struct RawRecord {
    pub mean: Vec3Bits,
    pub scale: Vec3Bits,
    pub opacity: u32,
    pub rotation: QuatBits,
    pub sh_dc0: u32,
    pub sh_dc1: u32,
    pub sh_dc2: u32,
    pub sh_rest: Vec<u32>,
}

/// Mathematical view of a record.
pub struct RecordView {
    pub mean: Vec3Bits,
    pub scale: Vec3Bits,
    pub opacity: u32,
    pub rotation: QuatBits,
    pub sh_dc0: u32,
    pub sh_dc1: u32,
    pub sh_dc2: u32,
    pub sh_rest: Seq<u32>,
}

impl View for RawRecord {
    type V = RecordView;

    open spec fn view(&self) -> RecordView {
        RecordView {
            mean: self.mean,
            scale: self.scale,
            opacity: self.opacity,
            rotation: self.rotation,
            sh_dc0: self.sh_dc0,
            sh_dc1: self.sh_dc1,
            sh_dc2: self.sh_dc2,
            sh_rest: self.sh_rest@,
        }
    }
}

/// The record every parse starts from: zero position, zero scale, zero
/// opacity and SH, identity rotation, no higher-order coefficients.
pub open spec fn spec_record_new() -> RecordView {
    RecordView {
        mean: Vec3Bits { x: 0, y: 0, z: 0 },
        scale: Vec3Bits { x: 0, y: 0, z: 0 },
        opacity: 0,
        rotation: QuatBits { w: F32_ONE_BITS, x: 0, y: 0, z: 0 },
        sh_dc0: 0,
        sh_dc1: 0,
        sh_dc2: 0,
        sh_rest: Seq::empty(),
    }
}

/// The scratch vector after writing `bits` at coefficient index `idx`,
/// zero-extending first when the vector is shorter.
pub open spec fn spec_rest_write(rest: Seq<u32>, idx: int, bits: u32) -> Seq<u32> {
    if idx < rest.len() {
        rest.update(idx, bits)
    } else {
        (rest + Seq::new((idx + 1 - rest.len()) as nat, |j: int| 0u32)).update(idx, bits)
    }
}

/// Effect of one named property on a record: the dispatch table of the
/// recognized splat property names. Unknown names, and known names carrying
/// a value of the wrong kind, leave the record unchanged.
pub open spec fn spec_set_prop(r: RecordView, name: Seq<u8>, v: PropValue) -> RecordView {
    match v {
        PropValue::Float(bits) => {
            if name == "x".spec_bytes() {
                RecordView { mean: Vec3Bits { x: bits, ..r.mean }, ..r }
            } else if name == "y".spec_bytes() {
                RecordView { mean: Vec3Bits { y: bits, ..r.mean }, ..r }
            } else if name == "z".spec_bytes() {
                RecordView { mean: Vec3Bits { z: bits, ..r.mean }, ..r }
            } else if name == "scale_0".spec_bytes() {
                RecordView { scale: Vec3Bits { x: bits, ..r.scale }, ..r }
            } else if name == "scale_1".spec_bytes() {
                RecordView { scale: Vec3Bits { y: bits, ..r.scale }, ..r }
            } else if name == "scale_2".spec_bytes() {
                RecordView { scale: Vec3Bits { z: bits, ..r.scale }, ..r }
            } else if name == "opacity".spec_bytes() {
                RecordView { opacity: bits, ..r }
            } else if name == "rot_0".spec_bytes() {
                RecordView { rotation: QuatBits { w: bits, ..r.rotation }, ..r }
            } else if name == "rot_1".spec_bytes() {
                RecordView { rotation: QuatBits { x: bits, ..r.rotation }, ..r }
            } else if name == "rot_2".spec_bytes() {
                RecordView { rotation: QuatBits { y: bits, ..r.rotation }, ..r }
            } else if name == "rot_3".spec_bytes() {
                RecordView { rotation: QuatBits { z: bits, ..r.rotation }, ..r }
            } else if name == "f_dc_0".spec_bytes() {
                RecordView { sh_dc0: bits, ..r }
            } else if name == "f_dc_1".spec_bytes() {
                RecordView { sh_dc1: bits, ..r }
            } else if name == "f_dc_2".spec_bytes() {
                RecordView { sh_dc2: bits, ..r }
            } else if is_prefix_of("f_rest_".spec_bytes(), name) {
                match parse_u32_dec(name.skip("f_rest_".spec_bytes().len() as int)) {
                    Some(idx) => if idx < u32::MAX {
                        RecordView { sh_rest: spec_rest_write(r.sh_rest, idx as int, bits), ..r }
                    } else {
                        r
                    },
                    None => r,
                }
            } else {
                r
            }
        },
        PropValue::UChar(v) => {
            if name == "red".spec_bytes() {
                RecordView { sh_dc0: sh_from_srgb(v), ..r }
            } else if name == "green".spec_bytes() {
                RecordView { sh_dc1: sh_from_srgb(v), ..r }
            } else if name == "blue".spec_bytes() {
                RecordView { sh_dc2: sh_from_srgb(v), ..r }
            } else {
                r
            }
        },
    }
}

impl RawRecord {
    /// Creates the default record that property assignments then fill in.
    pub fn new() -> (r: RawRecord)
        ensures
            r@ == spec_record_new(),
    {
        let r = RawRecord {
            mean: Vec3Bits::zero(),
            scale: Vec3Bits::zero(),
            opacity: 0,
            rotation: QuatBits::identity(),
            sh_dc0: 0,
            sh_dc1: 0,
            sh_dc2: 0,
            sh_rest: Vec::new(),
        };
        proof {
            assert(r@.sh_rest =~= spec_record_new().sh_rest);
        }
        r
    }

    /// Assigns one named property into the record; unknown names are a no-op.
    pub fn set_property(&mut self, name: &[u8], value: PropValue)
        ensures
            final(self)@ == spec_set_prop(old(self)@, name@, value),
    {
        match value {
            PropValue::Float(bits) => {
                if bytes_eq(name, "x".as_bytes()) {
                    self.mean.x = bits;
                } else if bytes_eq(name, "y".as_bytes()) {
                    self.mean.y = bits;
                } else if bytes_eq(name, "z".as_bytes()) {
                    self.mean.z = bits;
                } else if bytes_eq(name, "scale_0".as_bytes()) {
                    self.scale.x = bits;
                } else if bytes_eq(name, "scale_1".as_bytes()) {
                    self.scale.y = bits;
                } else if bytes_eq(name, "scale_2".as_bytes()) {
                    self.scale.z = bits;
                } else if bytes_eq(name, "opacity".as_bytes()) {
                    self.opacity = bits;
                } else if bytes_eq(name, "rot_0".as_bytes()) {
                    self.rotation.w = bits;
                } else if bytes_eq(name, "rot_1".as_bytes()) {
                    self.rotation.x = bits;
                } else if bytes_eq(name, "rot_2".as_bytes()) {
                    self.rotation.y = bits;
                } else if bytes_eq(name, "rot_3".as_bytes()) {
                    self.rotation.z = bits;
                } else if bytes_eq(name, "f_dc_0".as_bytes()) {
                    self.sh_dc0 = bits;
                } else if bytes_eq(name, "f_dc_1".as_bytes()) {
                    self.sh_dc1 = bits;
                } else if bytes_eq(name, "f_dc_2".as_bytes()) {
                    self.sh_dc2 = bits;
                } else {
                    let pfx = "f_rest_".as_bytes();
                    if starts_with(name, pfx) {
                        let suffix = vstd::slice::slice_subrange(name, pfx.len(), name.len());
                        proof {
                            assert(suffix@ =~= name@.skip("f_rest_".spec_bytes().len() as int));
                        }
                        match parse_u32_bytes(suffix) {
                            Some(idx) => {
                                if idx < u32::MAX {
                                    let idx = idx as usize;
                                    if idx >= self.sh_rest.len() {
                                        let ghost prev = self.sh_rest@;
                                        self.sh_rest.resize(idx + 1, 0u32);
                                        proof {
                                            assert(self.sh_rest@ =~= prev + Seq::new(
                                                (idx + 1 - prev.len()) as nat,
                                                |j: int| 0u32,
                                            ));
                                        }
                                    }
                                    self.sh_rest.set(idx, bits);
                                    proof {
                                        assert(self.sh_rest@ =~= spec_rest_write(
                                            old(self)@.sh_rest,
                                            idx as int,
                                            bits,
                                        ));
                                    }
                                }
                            },
                            None => {},
                        }
                    }
                }
            },
            PropValue::UChar(v) => {
                if bytes_eq(name, "red".as_bytes()) {
                    self.sh_dc0 = srgb_to_sh_bits(v);
                } else if bytes_eq(name, "green".as_bytes()) {
                    self.sh_dc1 = srgb_to_sh_bits(v);
                } else if bytes_eq(name, "blue".as_bytes()) {
                    self.sh_dc2 = srgb_to_sh_bits(v);
                }
            },
        }
    }

    /// Reads a named scalar back out of the record, `None` for names the
    /// record does not carry.
    pub fn get_bits(&self, name: &[u8]) -> (r: Option<u32>)
        ensures
            r == spec_get_bits(self@, name@),
    {
        if bytes_eq(name, "x".as_bytes()) {
            Some(self.mean.x)
        } else if bytes_eq(name, "y".as_bytes()) {
            Some(self.mean.y)
        } else if bytes_eq(name, "z".as_bytes()) {
            Some(self.mean.z)
        } else if bytes_eq(name, "scale_0".as_bytes()) {
            Some(self.scale.x)
        } else if bytes_eq(name, "scale_1".as_bytes()) {
            Some(self.scale.y)
        } else if bytes_eq(name, "scale_2".as_bytes()) {
            Some(self.scale.z)
        } else if bytes_eq(name, "opacity".as_bytes()) {
            Some(self.opacity)
        } else if bytes_eq(name, "rot_0".as_bytes()) {
            Some(self.rotation.w)
        } else if bytes_eq(name, "rot_1".as_bytes()) {
            Some(self.rotation.x)
        } else if bytes_eq(name, "rot_2".as_bytes()) {
            Some(self.rotation.y)
        } else if bytes_eq(name, "rot_3".as_bytes()) {
            Some(self.rotation.z)
        } else if bytes_eq(name, "f_dc_0".as_bytes()) {
            Some(self.sh_dc0)
        } else if bytes_eq(name, "f_dc_1".as_bytes()) {
            Some(self.sh_dc1)
        } else if bytes_eq(name, "f_dc_2".as_bytes()) {
            Some(self.sh_dc2)
        } else {
            let pfx = "f_rest_".as_bytes();
            if starts_with(name, pfx) {
                let suffix = vstd::slice::slice_subrange(name, pfx.len(), name.len());
                proof {
                    assert(suffix@ =~= name@.skip("f_rest_".spec_bytes().len() as int));
                }
                match parse_u32_bytes(suffix) {
                    Some(idx) => {
                        if (idx as usize) < self.sh_rest.len() {
                            Some(self.sh_rest[idx as usize])
                        } else {
                            None
                        }
                    },
                    None => None,
                }
            } else {
                None
            }
        }
    }
}

/// The scalar a record reads back for a name, mirroring the dispatch table.
pub open spec fn spec_get_bits(r: RecordView, name: Seq<u8>) -> Option<u32> {
    if name == "x".spec_bytes() {
        Some(r.mean.x)
    } else if name == "y".spec_bytes() {
        Some(r.mean.y)
    } else if name == "z".spec_bytes() {
        Some(r.mean.z)
    } else if name == "scale_0".spec_bytes() {
        Some(r.scale.x)
    } else if name == "scale_1".spec_bytes() {
        Some(r.scale.y)
    } else if name == "scale_2".spec_bytes() {
        Some(r.scale.z)
    } else if name == "opacity".spec_bytes() {
        Some(r.opacity)
    } else if name == "rot_0".spec_bytes() {
        Some(r.rotation.w)
    } else if name == "rot_1".spec_bytes() {
        Some(r.rotation.x)
    } else if name == "rot_2".spec_bytes() {
        Some(r.rotation.y)
    } else if name == "rot_3".spec_bytes() {
        Some(r.rotation.z)
    } else if name == "f_dc_0".spec_bytes() {
        Some(r.sh_dc0)
    } else if name == "f_dc_1".spec_bytes() {
        Some(r.sh_dc1)
    } else if name == "f_dc_2".spec_bytes() {
        Some(r.sh_dc2)
    } else if is_prefix_of("f_rest_".spec_bytes(), name) {
        match parse_u32_dec(name.skip("f_rest_".spec_bytes().len() as int)) {
            Some(idx) => if idx < r.sh_rest.len() {
                Some(r.sh_rest[idx as int])
            } else {
                None
            },
            None => None,
        }
    } else {
        None
    }
}

/// The canonical coefficient-major SH layout: the three DC values, then for
/// each coefficient index the three channel values consecutively, drawn from
/// the channel-major `rest` (all of a channel's coefficients contiguous).
pub open spec fn spec_interleave(dc0: u32, dc1: u32, dc2: u32, rest: Seq<u32>) -> Seq<u32>
    recommends
        rest.len() % 3 == 0,
{
    let k = rest.len() as int / 3;
    Seq::new(
        (3 + 3 * k) as nat,
        |j: int|
            if j == 0 {
                dc0
            } else if j == 1 {
                dc1
            } else if j == 2 {
                dc2
            } else {
                rest[((j - 3) % 3) * k + ((j - 3) / 3)]
            },
    )
}

/// Interleaves the SH coefficients of one record into coefficient-major
/// order.
pub fn interleave_coeffs(dc0: u32, dc1: u32, dc2: u32, rest: &[u32]) -> (r: Vec<u32>)
    requires
        rest@.len() % 3 == 0,
        rest@.len() <= usize::MAX - 3,
    ensures
        r@ == spec_interleave(dc0, dc1, dc2, rest@),
{
    let k = rest.len() / 3;
    let ghost target = spec_interleave(dc0, dc1, dc2, rest@);
    let mut out: Vec<u32> = Vec::new();
    out.push(dc0);
    out.push(dc1);
    out.push(dc2);
    let mut i: usize = 0;
    proof {
        assert(rest@.len() == 3 * (k as int)) by {
            vstd::arithmetic::div_mod::lemma_fundamental_div_mod(rest@.len() as int, 3);
        }
    }
    while i < k
        invariant
            i <= k,
            rest@.len() == 3 * (k as int),
            target == spec_interleave(dc0, dc1, dc2, rest@),
            target.len() == 3 + 3 * (k as int),
            out@.len() == 3 + 3 * (i as int),
            forall|j: int| 0 <= j < out@.len() ==> out@[j] == target[j],
        decreases k - i,
    {
        let ghost base: int = 3 + 3 * (i as int);
        out.push(rest[i]);
        out.push(rest[k + i]);
        out.push(rest[2 * k + i]);
        proof {
            let ki = k as int;
            let ii = i as int;
            let ghost ll = rest@.len() as int;
            assert(((base + 0 - 3) % 3) * (ll / 3) + ((base + 0 - 3) / 3) == ii && ((base + 1 - 3)
                % 3) * (ll / 3) + ((base + 1 - 3) / 3) == ki + ii && ((base + 2 - 3) % 3) * (ll / 3)
                + ((base + 2 - 3) / 3) == 2 * ki + ii) by (nonlinear_arith)
                requires
                    base == 3 + 3 * ii,
                    ii >= 0,
                    ki >= 0,
                    ll == 3 * ki,
            ;
            assert(target[base + 0] == rest@[ii]);
            assert(target[base + 1] == rest@[ki + ii]);
            assert(target[base + 2] == rest@[2 * ki + ii]);
            assert(out@[base + 0] == rest@[ii]);
            assert(out@[base + 1] == rest@[ki + ii]);
            assert(out@[base + 2] == rest@[2 * ki + ii]);
        }
        i += 1;
    }
    proof {
        assert(out@ =~= target);
    }
    out
}

/// The value a binary record supplies for a property at `pos`: the bit
/// pattern of a `float`, the byte of a `uchar`, and no value for the other
/// scalar types, whose bytes are only consumed.
pub open spec fn spec_binary_value(data: Seq<u8>, pos: int, ty: ScalarType, big: bool) -> Option<
    PropValue,
> {
    match ty {
        ScalarType::Float => Some(
            PropValue::Float(
                if big {
                    u32_be(data[pos], data[pos + 1], data[pos + 2], data[pos + 3])
                } else {
                    u32_le(data[pos], data[pos + 1], data[pos + 2], data[pos + 3])
                },
            ),
        ),
        ScalarType::UChar => Some(PropValue::UChar(data[pos])),
        _ => None,
    }
}

/// Folds the declared properties over a binary record starting at `pos`:
/// each property consumes its type's bytes; `None` when the payload ends
/// inside the record.
pub open spec fn spec_fold_binary(
    data: Seq<u8>,
    pos: int,
    props: Seq<PropView>,
    i: int,
    big: bool,
    r: RecordView,
) -> Option<(RecordView, int)>
    decreases props.len() - i,
{
    if i < 0 || i >= props.len() {
        Some((r, pos))
    } else {
        let sz = props[i].ty.spec_size() as int;
        if pos < 0 || pos + sz > data.len() {
            None
        } else {
            let r2 = match spec_binary_value(data, pos, props[i].ty, big) {
                Some(v) => spec_set_prop(r, props[i].name, v),
                None => r,
            };
            spec_fold_binary(data, pos + sz, props, i + 1, big, r2)
        }
    }
}

/// The record stored in binary at `pos`, with the position just past it.
pub open spec fn spec_parse_binary_record(
    data: Seq<u8>,
    pos: int,
    props: Seq<PropView>,
    big: bool,
) -> Option<(RecordView, int)> {
    spec_fold_binary(data, pos, props, 0, big, spec_record_new())
}

/// Parses one binary record at `pos`.
pub fn parse_binary_record(data: &[u8], pos: usize, props: &Vec<PropertyDecl>, big: bool) -> (r:
    Option<(RawRecord, usize)>)
    ensures
        match r {
            Some((rec, next)) => spec_parse_binary_record(data@, pos as int, props.deep_view(), big)
                == Some((rec@, next as int)),
            None => spec_parse_binary_record(data@, pos as int, props.deep_view(), big) is None,
        },
{
    let ghost pv = props.deep_view();
    proof {
        assert(pv.len() == props@.len());
        assert forall|j: int| 0 <= j < props@.len() implies pv[j] == props@[j]@ by {}
    }
    let mut rec = RawRecord::new();
    let mut cur = pos;
    let mut i: usize = 0;
    while i < props.len()
        invariant
            i <= props@.len(),
            pv == props.deep_view(),
            pv.len() == props@.len(),
            spec_parse_binary_record(data@, pos as int, pv, big) == spec_fold_binary(
                data@,
                cur as int,
                pv,
                i as int,
                big,
                rec@,
            ),
        decreases props@.len() - i,
    {
        proof {
            assert(pv[i as int] == props@[i as int]@);
        }
        let ty = props[i].ty;
        let sz = ty.size();
        if cur > data.len() || sz > data.len() - cur {
            return None;
        }
        match ty {
            ScalarType::Float => {
                let bits = if big {
                    u32_from_be(data[cur], data[cur + 1], data[cur + 2], data[cur + 3])
                } else {
                    u32_from_le(data[cur], data[cur + 1], data[cur + 2], data[cur + 3])
                };
                rec.set_property(props[i].name.as_slice(), PropValue::Float(bits));
            },
            ScalarType::UChar => {
                rec.set_property(props[i].name.as_slice(), PropValue::UChar(data[cur]));
            },
            _ => {},
        }
        cur = cur + sz;
        i += 1;
    }
    Some((rec, cur))
}

/// The value an ASCII token supplies for a property: `float` tokens must
/// parse as decimal numbers, `uchar` tokens as bytes; tokens of the other
/// scalar types are consumed unchecked. The outer `None` is a parse failure.
pub open spec fn spec_ascii_value(ty: ScalarType, tok: Seq<u8>) -> Option<Option<PropValue>> {
    match ty {
        ScalarType::Float => match f32_bits_of_decimal(tok) {
            Some(bits) => Some(Some(PropValue::Float(bits))),
            None => None,
        },
        ScalarType::UChar => match parse_u32_dec(tok) {
            Some(v) => if v <= 255 {
                Some(Some(PropValue::UChar(v as u8)))
            } else {
                None
            },
            None => None,
        },
        _ => Some(None),
    }
}

/// Folds the declared properties over the tokens of one ASCII record line.
pub open spec fn spec_fold_ascii(
    props: Seq<PropView>,
    toks: Seq<Seq<u8>>,
    i: int,
    r: RecordView,
) -> Option<RecordView>
    decreases props.len() - i,
{
    if i < 0 || i >= props.len() {
        Some(r)
    } else {
        match spec_ascii_value(props[i].ty, toks[i]) {
            None => None,
            Some(opt_v) => {
                let r2 = match opt_v {
                    Some(v) => spec_set_prop(r, props[i].name, v),
                    None => r,
                };
                spec_fold_ascii(props, toks, i + 1, r2)
            },
        }
    }
}

/// The record written on one ASCII line: exactly one whitespace-separated
/// token per declared property.
pub open spec fn spec_parse_ascii_record(line: Seq<u8>, props: Seq<PropView>) -> Option<
    RecordView,
> {
    let toks = tokens_of(line);
    if toks.len() != props.len() {
        None
    } else {
        spec_fold_ascii(props, toks, 0, spec_record_new())
    }
}

/// Parses one ASCII record line.
pub fn parse_ascii_record(line: &[u8], props: &Vec<PropertyDecl>) -> (r: Option<RawRecord>)
    ensures
        match r {
            Some(rec) => spec_parse_ascii_record(line@, props.deep_view()) == Some(rec@),
            None => spec_parse_ascii_record(line@, props.deep_view()) is None,
        },
{
    let ghost pv = props.deep_view();
    proof {
        assert(pv.len() == props@.len());
    }
    let toks = tokenize(line);
    let ghost tv = toks.deep_view();
    proof {
        assert(tv.len() == toks@.len());
        assert forall|j: int| 0 <= j < toks@.len() implies tv[j] == toks@[j]@ by {
            assert(toks@[j].deep_view() =~= toks@[j]@);
        }
    }
    if toks.len() != props.len() {
        return None;
    }
    let mut rec = RawRecord::new();
    let mut i: usize = 0;
    while i < props.len()
        invariant
            i <= props@.len(),
            pv == props.deep_view(),
            tv == toks.deep_view(),
            pv.len() == props@.len(),
            tv.len() == toks@.len(),
            toks@.len() == props@.len(),
            forall|j: int| 0 <= j < toks@.len() ==> tv[j] == toks@[j]@,
            spec_parse_ascii_record(line@, pv) == spec_fold_ascii(pv, tv, i as int, rec@),
        decreases props@.len() - i,
    {
        proof {
            assert(pv[i as int] == props@[i as int]@);
        }
        let ty = props[i].ty;
        match ty {
            ScalarType::Float => {
                match parse_float_bits(toks[i].as_slice()) {
                    Some(bits) => {
                        rec.set_property(props[i].name.as_slice(), PropValue::Float(bits));
                    },
                    None => {
                        return None;
                    },
                }
            },
            ScalarType::UChar => {
                match parse_u32_bytes(toks[i].as_slice()) {
                    Some(v) => {
                        if v <= 255 {
                            rec.set_property(props[i].name.as_slice(), PropValue::UChar(v as u8));
                        } else {
                            return None;
                        }
                    },
                    None => {
                        return None;
                    },
                }
            },
            _ => {},
        }
        i += 1;
    }
    Some(rec)
}

} // verus!
