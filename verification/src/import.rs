//! The streaming PLY splat importer. `Importer` consumes a byte payload one
//! record per step, accumulating a structure-of-arrays collection; every
//! `UPDATE_EVERY` appended records it hands out an intermediate snapshot, and
//! every `YIELD_EVERY` parsed records it asks the driving shell to yield
//! cooperatively. `load_splat_from_ply` runs the steps to completion.

use crate::bits::{QuatBits, Vec3Bits};
use crate::floats::{normalize_quat_bits, quat_norm_bits};
use crate::header::{
    parse_header, spec_has_prop, spec_parse_header, HeaderView, PlyEncoding, PropView,
    PropertyDecl,
};
use crate::record::{
    interleave_coeffs, parse_ascii_record, parse_binary_record, spec_interleave,
    spec_parse_ascii_record, spec_parse_binary_record, RawRecord, RecordView,
};
use crate::splats::{splats_wf, Splats, SplatsView};
use crate::text::{is_prefix_of, parse_u32_bytes, parse_u32_dec, starts_with};
use vstd::prelude::*;
use vstd::string::StringSliceAdditionalSpecFns;

verus! {

/// Emit an intermediate snapshot every this many appended records.
pub const UPDATE_EVERY: u32 = 25000;

/// Ask the driving shell to yield every this many parsed records.
pub const YIELD_EVERY: u32 = 500;

/// The ways an import can fail. Any failure aborts the stream; snapshots
/// already handed out stay valid.
#[derive(Debug, PartialEq, Eq)]
pub enum PlyError {
    /// The header is malformed, ends early, or announces an unknown
    /// encoding.
    InvalidHeader,
    /// The vertex element lacks `x`, `y` or `z`.
    MissingRequiredProperty,
    /// A record failed to parse under a well-formed header: wrong ASCII
    /// field count or a non-numeric ASCII token.
    Encoding,
    /// The payload ended before all declared records were read.
    Truncated,
    /// The header was valid but no splat materialized.
    Empty,
    /// The byte source itself failed; carries the lower-level message. Only
    /// the I/O shell around the importer constructs this.
    IoSource(String),
}

/// Everything the body-phase parser needs, derived from the header: the
/// encoding, the record count, the property list, the sub-sampling stride,
/// which optional vectors exist, and the padded channel-major length of the
/// higher-order SH coefficients (`3·K`, 0 without `f_rest_*` properties).
#[derive(Debug)]
pub struct VertexLayout {
    pub encoding: PlyEncoding,
    pub count: u32,
    pub props: Vec<PropertyDecl>,
    pub stride: u32,
    pub has_scale: bool,
    pub has_rot: bool,
    pub has_opacity: bool,
    pub has_sh: bool,
    pub sh_rest_len: usize,
}

/// Mathematical view of a layout.
pub struct LayoutView {
    pub encoding: PlyEncoding,
    pub count: u32,
    pub props: Seq<PropView>,
    pub stride: u32,
    pub has_scale: bool,
    pub has_rot: bool,
    pub has_opacity: bool,
    pub has_sh: bool,
    pub sh_rest_len: usize,
}

impl View for VertexLayout {
    type V = LayoutView;

    open spec fn view(&self) -> LayoutView {
        LayoutView {
            encoding: self.encoding,
            count: self.count,
            props: self.props.deep_view(),
            stride: self.stride,
            has_scale: self.has_scale,
            has_rot: self.has_rot,
            has_opacity: self.has_opacity,
            has_sh: self.has_sh,
            sh_rest_len: self.sh_rest_len,
        }
    }
}

/// The bounds a derived layout always satisfies.
pub open spec fn layout_wf(l: LayoutView) -> bool {
    &&& l.stride >= 1
    &&& l.sh_rest_len % 3 == 0
    &&& l.sh_rest_len <= 0xFFFF_FFF2usize
}

/// The largest `f_rest_{i}` index among the properties, scanned left to
/// right with `acc` as the running maximum.
pub open spec fn spec_max_f_rest_from(props: Seq<PropView>, i: int, acc: Option<u32>) -> Option<
    u32,
>
    decreases props.len() - i,
{
    if i < 0 || i >= props.len() {
        acc
    } else {
        let this = if is_prefix_of("f_rest_".spec_bytes(), props[i].name) {
            parse_u32_dec(props[i].name.skip("f_rest_".spec_bytes().len() as int))
        } else {
            None
        };
        let acc2 = match (acc, this) {
            (None, t) => t,
            (Some(a), None) => Some(a),
            (Some(a), Some(t)) => if t > a {
                Some(t)
            } else {
                Some(a)
            },
        };
        spec_max_f_rest_from(props, i + 1, acc2)
    }
}

/// The layout derived from a parsed header and a sub-sampling stride.
/// `None` when an `f_rest_{i}` index is unreasonably close to the 32-bit
/// limit, which the importer rejects as an invalid header.
pub open spec fn spec_layout(h: HeaderView, stride: u32) -> Option<LayoutView> {
    match spec_max_f_rest_from(h.props, 0, None) {
        Some(m) => if m >= 0xFFFF_FFF0u32 {
            None
        } else {
            Some(spec_layout_with(h, stride, ((((m as int) + 3) / 3) * 3) as usize))
        },
        None => Some(spec_layout_with(h, stride, 0)),
    }
}

/// The layout with everything but the SH scratch length filled in from the
/// header's property sentinels.
pub open spec fn spec_layout_with(h: HeaderView, stride: u32, rest_len: usize) -> LayoutView {
    LayoutView {
        encoding: h.encoding,
        count: h.count,
        props: h.props,
        stride,
        has_scale: spec_has_prop(h.props, "scale_0".spec_bytes()),
        has_rot: spec_has_prop(h.props, "rot_0".spec_bytes()),
        has_opacity: spec_has_prop(h.props, "opacity".spec_bytes()),
        has_sh: spec_has_prop(h.props, "f_dc_0".spec_bytes()) || spec_has_prop(
            h.props,
            "red".spec_bytes(),
        ),
        sh_rest_len: rest_len,
    }
}

/// Position of the first newline at or after `pos`, or the payload length.
pub open spec fn spec_find_nl(data: Seq<u8>, pos: int) -> int
    decreases data.len() - pos,
{
    if pos < 0 || pos >= data.len() {
        data.len() as int
    } else if data[pos] == 10 {
        pos
    } else {
        spec_find_nl(data, pos + 1)
    }
}

/// Finds the first newline at or after `pos`.
fn find_nl(data: &[u8], pos: usize) -> (r: usize)
    requires
        pos <= data@.len(),
    ensures
        r == spec_find_nl(data@, pos as int),
        pos <= r <= data@.len(),
{
    let mut i = pos;
    while i < data.len()
        invariant
            pos <= i <= data@.len(),
            spec_find_nl(data@, pos as int) == spec_find_nl(data@, i as int),
        decreases data@.len() - i,
    {
        if data[i] == 10 {
            return i;
        }
        i += 1;
    }
    i
}

/// The record stored at `pos` and the position just past it, or the error
/// that position produces: `Truncated` when the payload is exhausted,
/// `Encoding` when an ASCII line does not spell a record.
pub open spec fn spec_record_at(data: Seq<u8>, pos: int, l: LayoutView) -> Result<
    (RecordView, int),
    PlyError,
> {
    match l.encoding {
        PlyEncoding::Ascii => {
            if pos >= data.len() {
                Err(PlyError::Truncated)
            } else {
                let nl = spec_find_nl(data, pos);
                let line = data.subrange(pos, nl);
                match spec_parse_ascii_record(line, l.props) {
                    Some(r) => Ok(
                        (
                            r,
                            if nl < data.len() {
                                nl + 1
                            } else {
                                nl
                            },
                        ),
                    ),
                    None => Err(PlyError::Encoding),
                }
            }
        },
        PlyEncoding::BinaryLittleEndian => {
            match spec_parse_binary_record(data, pos, l.props, false) {
                Some((r, p)) => Ok((r, p)),
                None => Err(PlyError::Truncated),
            }
        },
        PlyEncoding::BinaryBigEndian => {
            match spec_parse_binary_record(data, pos, l.props, true) {
                Some((r, p)) => Ok((r, p)),
                None => Err(PlyError::Truncated),
            }
        },
    }
}

/// Parses the record at `pos`.
fn parse_record_at(data: &[u8], pos: usize, layout: &VertexLayout) -> (r: Result<
    (RawRecord, usize),
    PlyError,
>)
    ensures
        match r {
            Ok((rec, next)) => spec_record_at(data@, pos as int, layout@) == Ok::<
                (RecordView, int),
                PlyError,
            >((rec@, next as int)),
            Err(e) => spec_record_at(data@, pos as int, layout@) == Err::<
                (RecordView, int),
                PlyError,
            >(e),
        },
{
    match layout.encoding {
        PlyEncoding::Ascii => {
            if pos >= data.len() {
                return Err(PlyError::Truncated);
            }
            let nl = find_nl(data, pos);
            let line = vstd::slice::slice_subrange(data, pos, nl);
            match parse_ascii_record(line, &layout.props) {
                Some(rec) => {
                    let next = if nl < data.len() {
                        nl + 1
                    } else {
                        nl
                    };
                    Ok((rec, next))
                },
                None => Err(PlyError::Encoding),
            }
        },
        PlyEncoding::BinaryLittleEndian => {
            match parse_binary_record(data, pos, &layout.props, false) {
                Some((rec, next)) => Ok((rec, next)),
                None => Err(PlyError::Truncated),
            }
        },
        PlyEncoding::BinaryBigEndian => {
            match parse_binary_record(data, pos, &layout.props, true) {
                Some((rec, next)) => Ok((rec, next)),
                None => Err(PlyError::Truncated),
            }
        },
    }
}

/// Folds `spec_record_at` over records `i..n`, accumulating the records
/// already parsed; the first failing record's error aborts the fold.
pub open spec fn spec_records_step(
    data: Seq<u8>,
    pos: int,
    i: int,
    n: int,
    acc: Seq<RecordView>,
    l: LayoutView,
) -> Result<(Seq<RecordView>, int), PlyError>
    decreases n - i,
{
    if i >= n {
        Ok((acc, pos))
    } else {
        match spec_record_at(data, pos, l) {
            Err(e) => Err(e),
            Ok((r, p2)) => spec_records_step(data, p2, i + 1, n, acc.push(r), l),
        }
    }
}

/// The `n` records of the body starting at `pos`.
pub open spec fn spec_records(data: Seq<u8>, pos: int, n: int, l: LayoutView) -> Result<
    (Seq<RecordView>, int),
    PlyError,
> {
    spec_records_step(data, pos, 0, n, Seq::empty(), l)
}

/// How many of the first `n` records sub-sampling with stride `s` accepts:
/// `ceil(n / s)`, written over the index of the last accepted record.
pub open spec fn spec_accepted_count(n: int, s: int) -> int {
    if n <= 0 {
        0
    } else {
        (n - 1) / s + 1
    }
}

/// The records that sub-sampling accepts: those at indices `0, s, 2s, ...`,
/// in their original order.
pub open spec fn spec_accepted(records: Seq<RecordView>, s: int) -> Seq<RecordView> {
    Seq::new(
        spec_accepted_count(records.len() as int, s) as nat,
        |k: int| records[k * s],
    )
}

/// Zero-extends (or trims) a record's SH scratch vector to the layout's
/// channel-major length.
pub open spec fn spec_pad(s: Seq<u32>, len: int) -> Seq<u32> {
    if s.len() >= len {
        s.take(len)
    } else {
        s + Seq::new((len - s.len()) as nat, |j: int| 0u32)
    }
}

/// One record's SH block in the collection: DC first, then the higher-order
/// coefficients interleaved coefficient-major.
pub open spec fn spec_record_sh(r: RecordView, rest_len: int) -> Seq<u32> {
    spec_interleave(r.sh_dc0, r.sh_dc1, r.sh_dc2, spec_pad(r.sh_rest, rest_len))
}

/// The flattened SH vector of a sequence of accepted records.
pub open spec fn spec_sh_flat(rs: Seq<RecordView>, rest_len: int) -> Seq<u32>
    decreases rs.len(),
{
    if rs.len() == 0 {
        Seq::empty()
    } else {
        spec_sh_flat(rs.drop_last(), rest_len) + spec_record_sh(rs.last(), rest_len)
    }
}

/// The normalized rotation a record contributes to the collection.
pub open spec fn spec_record_rot(r: RecordView) -> QuatBits {
    quat_norm_bits(r.rotation.w, r.rotation.x, r.rotation.y, r.rotation.z)
}

/// The collection built from a sequence of accepted records: parallel
/// vectors for the present properties, rotations normalized, SH interleaved.
pub open spec fn spec_collection(accepted: Seq<RecordView>, l: LayoutView) -> SplatsView {
    SplatsView {
        means: accepted.map_values(|r: RecordView| r.mean),
        rotations: if l.has_rot {
            Some(accepted.map_values(|r: RecordView| spec_record_rot(r)))
        } else {
            None
        },
        log_scales: if l.has_scale {
            Some(accepted.map_values(|r: RecordView| r.scale))
        } else {
            None
        },
        sh_coeffs: if l.has_sh {
            Some(spec_sh_flat(accepted, l.sh_rest_len as int))
        } else {
            None
        },
        opacities: if l.has_opacity {
            Some(accepted.map_values(|r: RecordView| r.opacity))
        } else {
            None
        },
        sh_per_splat: (3 + l.sh_rest_len) as usize,
    }
}

/// How many intermediate snapshots have been handed out after `p` parsed
/// records: one per `UPDATE_EVERY` appended records, except that a milestone
/// reached by the final record is left to the final snapshot.
pub open spec fn spec_emitted(p: int, count: int, s: int) -> int {
    if count == 0 {
        0
    } else {
        let m = if p < count - 1 {
            p
        } else {
            count - 1
        };
        spec_accepted_count(m, s) / (UPDATE_EVERY as int)
    }
}

/// How one more parsed record changes the accepted count: by one exactly
/// when its index is a multiple of the stride.
proof fn lemma_acc_count_step(n: int, s: int)
    requires
        n >= 0,
        s >= 1,
    ensures
        spec_accepted_count(n + 1, s) == spec_accepted_count(n, s) + (if n % s == 0 {
            1int
        } else {
            0int
        }),
        spec_accepted_count(n + 1, s) <= n + 1,
{
    vstd::arithmetic::div_mod::lemma_fundamental_div_mod(n, s);
    let q = n / s;
    let r = n % s;
    vstd::arithmetic::div_mod::lemma_mod_bound(n, s);
    if n == 0 {
        vstd::arithmetic::div_mod::lemma_fundamental_div_mod_converse(0, s, 0, 0);
    } else {
        if r == 0 {
            assert(q >= 1) by (nonlinear_arith)
                requires
                    n == s * q + 0,
                    n >= 1,
                    s >= 1,
            ;
            assert(n - 1 == (q - 1) * s + (s - 1)) by (nonlinear_arith)
                requires
                    n == s * q,
            ;
            vstd::arithmetic::div_mod::lemma_fundamental_div_mod_converse(n - 1, s, q - 1, s - 1);
        } else {
            assert(n - 1 == q * s + (r - 1)) by (nonlinear_arith)
                requires
                    n == s * q + r,
            ;
            vstd::arithmetic::div_mod::lemma_fundamental_div_mod_converse(n - 1, s, q, r - 1);
        }
    }
    assert(n == q * s + r) by (nonlinear_arith)
        requires
            n == s * q + r,
    ;
    vstd::arithmetic::div_mod::lemma_fundamental_div_mod_converse(n, s, q, r);
    assert(q <= q * s) by (nonlinear_arith)
        requires
            q >= 0,
            s >= 1,
    ;
}

/// How one more unit changes a quotient: by one exactly at multiples.
proof fn lemma_div_step(a: int, u: int)
    requires
        a >= 0,
        u >= 1,
    ensures
        (a + 1) / u == a / u + (if (a + 1) % u == 0 {
            1int
        } else {
            0int
        }),
{
    vstd::arithmetic::div_mod::lemma_fundamental_div_mod(a, u);
    vstd::arithmetic::div_mod::lemma_mod_bound(a, u);
    let q = a / u;
    let r = a % u;
    if r == u - 1 {
        assert(a + 1 == (q + 1) * u + 0) by (nonlinear_arith)
            requires
                a == u * q + r,
                r == u - 1,
        ;
        vstd::arithmetic::div_mod::lemma_fundamental_div_mod_converse(a + 1, u, q + 1, 0);
    } else {
        assert(a + 1 == q * u + (r + 1)) by (nonlinear_arith)
            requires
                a == u * q + r,
        ;
        vstd::arithmetic::div_mod::lemma_fundamental_div_mod_converse(a + 1, u, q, r + 1);
    }
}

/// Every accepted index lies inside the record sequence.
proof fn lemma_accepted_index(n: int, s: int, k: int)
    requires
        s >= 1,
        0 <= k < spec_accepted_count(n, s),
    ensures
        0 <= k * s < n,
{
    vstd::arithmetic::div_mod::lemma_fundamental_div_mod(n - 1, s);
    vstd::arithmetic::div_mod::lemma_mod_bound(n - 1, s);
    let q = (n - 1) / s;
    assert(k * s <= q * s) by (nonlinear_arith)
        requires
            k <= q,
            s >= 1,
            k >= 0,
    ;
    assert(q * s <= n - 1) by (nonlinear_arith)
        requires
            n - 1 == s * q + ((n - 1) % s),
            (n - 1) % s >= 0,
    ;
    assert(k * s >= 0) by (nonlinear_arith)
        requires
            k >= 0,
            s >= 1,
    ;
}

/// When the record count is itself a multiple of the stride, the accepted
/// count times the stride lands exactly on it.
proof fn lemma_accepted_exact(n: int, s: int)
    requires
        s >= 1,
        n >= 0,
        n % s == 0,
    ensures
        spec_accepted_count(n, s) * s == n,
{
    if n == 0 {
    } else {
        vstd::arithmetic::div_mod::lemma_fundamental_div_mod(n, s);
        let q = n / s;
        assert(q >= 1) by (nonlinear_arith)
            requires
                n == s * q,
                n >= 1,
                s >= 1,
        ;
        assert(n - 1 == (q - 1) * s + (s - 1)) by (nonlinear_arith)
            requires
                n == s * q,
        ;
        vstd::arithmetic::div_mod::lemma_fundamental_div_mod_converse(n - 1, s, q - 1, s - 1);
        assert(spec_accepted_count(n, s) == q);
        assert(q * s == n) by (nonlinear_arith)
            requires
                n == s * q,
        ;
    }
}

/// How one more parsed record changes the accepted sequence.
proof fn lemma_accepted_push(records: Seq<RecordView>, r: RecordView, s: int)
    requires
        s >= 1,
    ensures
        records.len() as int % s == 0 ==> spec_accepted(records.push(r), s) == spec_accepted(
            records,
            s,
        ).push(r),
        records.len() as int % s != 0 ==> spec_accepted(records.push(r), s) == spec_accepted(
            records,
            s,
        ),
{
    let n = records.len() as int;
    lemma_acc_count_step(n, s);
    if n % s == 0 {
        lemma_accepted_exact(n, s);
        assert forall|k: int| 0 <= k < spec_accepted_count(n, s) implies records.push(r)[#[trigger] (k * s)] == records[k * s] by {
            lemma_accepted_index(n, s, k);
        }
        assert(spec_accepted(records.push(r), s) =~= spec_accepted(records, s).push(r));
    } else {
        assert forall|k: int| 0 <= k < spec_accepted_count(n, s) implies records.push(r)[#[trigger] (k * s)] == records[k * s] by {
            lemma_accepted_index(n, s, k);
        }
        assert(spec_accepted(records.push(r), s) =~= spec_accepted(records, s));
    }
}

/// Appending a record appends its SH block to the flattened SH vector.
proof fn lemma_sh_flat_push(rs: Seq<RecordView>, r: RecordView, rest_len: int)
    ensures
        spec_sh_flat(rs.push(r), rest_len) == spec_sh_flat(rs, rest_len) + spec_record_sh(
            r,
            rest_len,
        ),
{
    assert(rs.push(r).drop_last() =~= rs);
    assert(rs.push(r).last() == r);
}

/// Length of the flattened SH vector: one block of `3 + rest_len` per record.
pub proof fn lemma_sh_flat_len(rs: Seq<RecordView>, rest_len: int)
    requires
        rest_len >= 0,
        rest_len % 3 == 0,
    ensures
        spec_sh_flat(rs, rest_len).len() == rs.len() * (3 + rest_len),
    decreases rs.len(),
{
    if rs.len() == 0 {
    } else {
        lemma_sh_flat_len(rs.drop_last(), rest_len);
        vstd::arithmetic::div_mod::lemma_fundamental_div_mod(rest_len, 3);
        let blk = spec_record_sh(rs.last(), rest_len);
        assert(spec_pad(rs.last().sh_rest, rest_len).len() == rest_len);
        assert(blk.len() == 3 + 3 * (rest_len / 3));
        assert(3 * (rest_len / 3) == rest_len) by (nonlinear_arith)
            requires
                rest_len == 3 * (rest_len / 3) + rest_len % 3,
                rest_len % 3 == 0,
        ;
        assert((rs.len() as int - 1) * (3 + rest_len) + (3 + rest_len) == rs.len() as int * (3
            + rest_len)) by (nonlinear_arith);
    }
}

/// How one parse step changes the number of snapshots owed: by one exactly
/// when it appends, completes a milestone, and is not the final record.
proof fn lemma_emitted_step(p: int, c: int, s: int)
    requires
        0 <= p < c,
        s >= 1,
    ensures
        ({
            let u = UPDATE_EVERY as int;
            let e0 = spec_emitted(p, c, s);
            let e1 = spec_emitted(p + 1, c, s);
            let a1 = spec_accepted_count(p + 1, s);
            &&& (p % s == 0 && a1 % u == 0 && p + 1 < c) ==> (e1 == e0 + 1 && a1 == e1 * u)
            &&& !(p % s == 0 && a1 % u == 0 && p + 1 < c) ==> e1 == e0
        }),
{
    let u = UPDATE_EVERY as int;
    let a0 = spec_accepted_count(p, s);
    let a1 = spec_accepted_count(p + 1, s);
    lemma_acc_count_step(p, s);
    assert(a0 >= 0);
    if p + 1 < c {
        if p % s == 0 {
            lemma_div_step(a0, u);
            if a1 % u == 0 {
                vstd::arithmetic::div_mod::lemma_fundamental_div_mod(a1, u);
                assert(a1 == (a1 / u) * u) by (nonlinear_arith)
                    requires
                        a1 == u * (a1 / u) + a1 % u,
                        a1 % u == 0,
                ;
            }
        }
    } else {
        assert(p + 1 == c);
    }
}

/// One step of the importer: a record was parsed (with its yield hint and,
/// at a milestone, an intermediate snapshot), or the final snapshot is done.
pub enum ImportStep {
    /// One record parsed. `yield_hint` asks the driving shell to yield; at
    /// an `UPDATE_EVERY` milestone `snapshot` carries the intermediate
    /// snapshot to hand downstream.
    Parsed { yield_hint: bool, snapshot: Option<Splats> },
    /// All records consumed: the complete collection.
    Done(Splats),
}

/// The incremental importer: header already parsed, records consumed one
/// `step` at a time.
pub struct Importer {
    data: Vec<u8>,
    layout: VertexLayout,
    cursor: usize,
    parsed: u32,
    appended: u32,
    emitted: u32,
    finished: bool,
    acc_means: Vec<Vec3Bits>,
    acc_rotations: Vec<QuatBits>,
    acc_scales: Vec<Vec3Bits>,
    acc_sh: Vec<u32>,
    acc_opacities: Vec<u32>,
    body_start: Ghost<int>,
    records: Ghost<Seq<RecordView>>,
}

/// The stride that a sub-sampling argument denotes: every record without
/// one.
pub open spec fn spec_stride(sub: Option<u32>) -> u32 {
    match sub {
        Some(s) => s,
        None => 1,
    }
}

/// Opening a payload: header parse and layout derivation, with the offset
/// of the first body byte.
pub open spec fn spec_open(data: Seq<u8>, sub: Option<u32>) -> Result<(LayoutView, int), PlyError> {
    match spec_parse_header(data) {
        None => Err(PlyError::InvalidHeader),
        Some((h, pos, ok)) => {
            if !ok {
                Err(PlyError::MissingRequiredProperty)
            } else {
                match spec_layout(h, spec_stride(sub)) {
                    None => Err(PlyError::InvalidHeader),
                    Some(l) => Ok((l, pos)),
                }
            }
        },
    }
}

impl Importer {
    /// The payload being imported.
    pub closed spec fn datav(&self) -> Seq<u8> {
        self.data@
    }

    /// The derived layout.
    pub closed spec fn layoutv(&self) -> LayoutView {
        self.layout@
    }

    /// The records parsed so far.
    pub closed spec fn recordsv(&self) -> Seq<RecordView> {
        self.records@
    }

    /// Offset of the first body byte.
    pub closed spec fn body_startv(&self) -> int {
        self.body_start@
    }

    /// Current read position in the payload.
    pub closed spec fn cursorv(&self) -> int {
        self.cursor as int
    }

    /// Number of records parsed so far.
    pub closed spec fn parsedv(&self) -> int {
        self.parsed as int
    }

    /// Number of intermediate snapshots handed out so far.
    pub closed spec fn emittedv(&self) -> int {
        self.emitted as int
    }

    /// Whether the import has ended, in success or failure.
    pub closed spec fn is_finished(&self) -> bool {
        self.finished
    }

    /// The importer's internal consistency: counters match the ghost record
    /// trail, the accumulators hold exactly the accepted records' data, and
    /// continuing from the cursor yields the same records as the whole body.
    pub closed spec fn inv(&self) -> bool {
        let l = self.layout@;
        let s = l.stride as int;
        let accepted = spec_accepted(self.records@, s);
        &&& layout_wf(l)
        &&& self.parsed <= l.count
        &&& self.records@.len() == self.parsed as int
        &&& self.appended as int == spec_accepted_count(self.parsed as int, s)
        &&& self.emitted as int == spec_emitted(self.parsed as int, l.count as int, s)
        &&& spec_records(self.data@, self.body_start@, l.count as int, l) == spec_records_step(
            self.data@,
            self.cursor as int,
            self.parsed as int,
            l.count as int,
            self.records@,
            l,
        )
        &&& self.acc_means@ == accepted.map_values(|r: RecordView| r.mean)
        &&& if l.has_rot {
            self.acc_rotations@ == accepted.map_values(|r: RecordView| spec_record_rot(r))
        } else {
            self.acc_rotations@.len() == 0
        }
        &&& if l.has_scale {
            self.acc_scales@ == accepted.map_values(|r: RecordView| r.scale)
        } else {
            self.acc_scales@.len() == 0
        }
        &&& if l.has_sh {
            self.acc_sh@ == spec_sh_flat(accepted, l.sh_rest_len as int)
        } else {
            self.acc_sh@.len() == 0
        }
        &&& if l.has_opacity {
            self.acc_opacities@ == accepted.map_values(|r: RecordView| r.opacity)
        } else {
            self.acc_opacities@.len() == 0
        }
    }

    /// Whether the import has ended.
    pub fn is_done(&self) -> (r: bool)
        ensures
            r == self.is_finished(),
    {
        self.finished
    }

    /// A snapshot of the current accumulators.
    fn snapshot(&self) -> (s: Splats)
        requires
            self.inv(),
        ensures
            s@ == spec_collection(
                spec_accepted(self.recordsv(), self.layoutv().stride as int),
                self.layoutv(),
            ),
    {
        let means = self.acc_means.clone();
        proof {
            assert(means@ =~= self.acc_means@);
        }
        let rotations = if self.layout.has_rot {
            let v = self.acc_rotations.clone();
            proof {
                assert(v@ =~= self.acc_rotations@);
            }
            Some(v)
        } else {
            None
        };
        let log_scales = if self.layout.has_scale {
            let v = self.acc_scales.clone();
            proof {
                assert(v@ =~= self.acc_scales@);
            }
            Some(v)
        } else {
            None
        };
        let sh_coeffs = if self.layout.has_sh {
            let v = self.acc_sh.clone();
            proof {
                assert(v@ =~= self.acc_sh@);
            }
            Some(v)
        } else {
            None
        };
        let opacities = if self.layout.has_opacity {
            let v = self.acc_opacities.clone();
            proof {
                assert(v@ =~= self.acc_opacities@);
            }
            Some(v)
        } else {
            None
        };
        Splats {
            means,
            rotations,
            log_scales,
            sh_coeffs,
            opacities,
            sh_per_splat: 3 + self.layout.sh_rest_len,
        }
    }

    /// Opens a payload: parses the header, derives the layout, and readies
    /// the record loop. `subsample_stride` keeps one record in that many;
    /// a stride of zero is meaningless and excluded.
    pub fn new(data: Vec<u8>, subsample_stride: Option<u32>) -> (r: Result<Importer, PlyError>)
        requires
            subsample_stride != Some(0u32),
        ensures
            match r {
                Ok(imp) => {
                    &&& imp.inv()
                    &&& !imp.is_finished()
                    &&& imp.datav() == data@
                    &&& imp.parsedv() == 0
                    &&& imp.emittedv() == 0
                    &&& imp.recordsv() == Seq::<RecordView>::empty()
                    &&& spec_open(data@, subsample_stride) == Ok::<(LayoutView, int), PlyError>(
                        (imp.layoutv(), imp.body_startv()),
                    )
                },
                Err(e) => spec_open(data@, subsample_stride) == Err::<(LayoutView, int), PlyError>(
                    e,
                ),
            },
    {
        let stride: u32 = match subsample_stride {
            Some(s) => s,
            None => 1,
        };
        let (header, pos) = match parse_header(data.as_slice()) {
            Ok(hp) => hp,
            Err(missing) => {
                if missing {
                    return Err(PlyError::MissingRequiredProperty);
                } else {
                    return Err(PlyError::InvalidHeader);
                }
            },
        };
        let rest_len: usize = match max_f_rest(&header.props) {
            Some(m) => {
                if m >= 0xFFFF_FFF0u32 {
                    return Err(PlyError::InvalidHeader);
                }
                let q = (m + 3) / 3;
                proof {
                    vstd::arithmetic::div_mod::lemma_fundamental_div_mod(m as int + 3, 3);
                    assert((q as int) * 3 <= m as int + 3);
                    assert(((q as int) * 3) % 3 == 0) by {
                        vstd::arithmetic::div_mod::lemma_fundamental_div_mod_converse(
                            (q as int) * 3,
                            3,
                            q as int,
                            0,
                        );
                    }
                }
                (q * 3) as usize
            },
            None => 0,
        };
        let has_scale = has_prop_exec(&header.props, "scale_0".as_bytes());
        let has_rot = has_prop_exec(&header.props, "rot_0".as_bytes());
        let has_opacity = has_prop_exec(&header.props, "opacity".as_bytes());
        let has_sh = has_prop_exec(&header.props, "f_dc_0".as_bytes()) || has_prop_exec(
            &header.props,
            "red".as_bytes(),
        );
        let layout = VertexLayout {
            encoding: header.encoding,
            count: header.count,
            stride,
            has_scale,
            has_rot,
            has_opacity,
            has_sh,
            props: header.props,
            sh_rest_len: rest_len,
        };
        let ghost lv = layout@;
        let imp = Importer {
            data,
            layout,
            cursor: pos,
            parsed: 0,
            appended: 0,
            emitted: 0,
            finished: false,
            acc_means: Vec::new(),
            acc_rotations: Vec::new(),
            acc_scales: Vec::new(),
            acc_sh: Vec::new(),
            acc_opacities: Vec::new(),
            body_start: Ghost(pos as int),
            records: Ghost(Seq::empty()),
        };
        proof {
            vstd::arithmetic::div_mod::lemma_div_of0(UPDATE_EVERY as int);
            assert(spec_accepted(Seq::<RecordView>::empty(), lv.stride as int) =~= Seq::<
                RecordView,
            >::empty());
            assert(Seq::<RecordView>::empty().map_values(|r: RecordView| r.mean) =~= Seq::<
                Vec3Bits,
            >::empty());
            assert(Seq::<RecordView>::empty().map_values(|r: RecordView| spec_record_rot(r)) =~= Seq::<
                QuatBits,
            >::empty());
            assert(Seq::<RecordView>::empty().map_values(|r: RecordView| r.scale) =~= Seq::<
                Vec3Bits,
            >::empty());
            assert(Seq::<RecordView>::empty().map_values(|r: RecordView| r.opacity) =~= Seq::<
                u32,
            >::empty());
        }
        Ok(imp)
    }

    /// Advances the import by one action: hands out the final snapshot when
    /// every record has been consumed (`Empty` when none materialized), or
    /// parses one record, appending it unless sub-sampling skips it, with an
    /// intermediate snapshot at every `UPDATE_EVERY`-append milestone and a
    /// cooperative-yield hint every `YIELD_EVERY` parsed records.
    pub fn step(&mut self) -> (r: Result<ImportStep, PlyError>)
        requires
            old(self).inv(),
            !old(self).is_finished(),
        ensures
            final(self).inv(),
            final(self).datav() == old(self).datav(),
            final(self).layoutv() == old(self).layoutv(),
            final(self).body_startv() == old(self).body_startv(),
            match r {
                Ok(ImportStep::Done(s)) => {
                    &&& old(self).parsedv() == old(self).layoutv().count as int
                    &&& final(self).is_finished()
                    &&& final(self).recordsv() == old(self).recordsv()
                    &&& final(self).emittedv() == old(self).emittedv()
                    &&& spec_accepted(old(self).recordsv(), old(self).layoutv().stride as int).len()
                        > 0
                    &&& s@ == spec_collection(
                        spec_accepted(old(self).recordsv(), old(self).layoutv().stride as int),
                        old(self).layoutv(),
                    )
                },
                Ok(ImportStep::Parsed { yield_hint, snapshot }) => {
                    let l = old(self).layoutv();
                    let at = spec_record_at(old(self).datav(), old(self).cursorv(), l);
                    &&& old(self).parsedv() < l.count as int
                    &&& !final(self).is_finished()
                    &&& at is Ok
                    &&& final(self).recordsv() == old(self).recordsv().push(at->Ok_0.0)
                    &&& final(self).parsedv() == old(self).parsedv() + 1
                    &&& yield_hint == (old(self).parsedv() % (YIELD_EVERY as int) == 0)
                    &&& match snapshot {
                        Some(s) => {
                            &&& final(self).emittedv() == old(self).emittedv() + 1
                            &&& spec_accepted(final(self).recordsv(), l.stride as int).len()
                                == final(self).emittedv() * (UPDATE_EVERY as int)
                            &&& s@ == spec_collection(
                                spec_accepted(final(self).recordsv(), l.stride as int),
                                l,
                            )
                        },
                        None => final(self).emittedv() == old(self).emittedv(),
                    }
                },
                Err(e) => {
                    &&& final(self).is_finished()
                    &&& final(self).recordsv() == old(self).recordsv()
                    &&& if old(self).parsedv() == old(self).layoutv().count as int {
                        &&& e == PlyError::Empty
                        &&& spec_accepted(
                            old(self).recordsv(),
                            old(self).layoutv().stride as int,
                        ).len() == 0
                    } else {
                        spec_record_at(old(self).datav(), old(self).cursorv(), old(self).layoutv())
                            == Err::<(RecordView, int), PlyError>(e)
                    }
                },
            },
    {
        let ghost l = self.layout@;
        let ghost s_int = l.stride as int;
        if self.parsed == self.layout.count {
            if self.appended == 0 {
                self.finished = true;
                return Err(PlyError::Empty);
            }
            let s = self.snapshot();
            self.finished = true;
            return Ok(ImportStep::Done(s));
        }
        match parse_record_at(self.data.as_slice(), self.cursor, &self.layout) {
            Err(e) => {
                self.finished = true;
                Err(e)
            },
            Ok((rec, next)) => {
                let ghost rv = rec@;
                let ghost old_records = self.records@;
                proof {
                    assert(spec_records_step(
                        self.data@,
                        self.cursor as int,
                        self.parsed as int,
                        l.count as int,
                        old_records,
                        l,
                    ) == spec_records_step(
                        self.data@,
                        next as int,
                        self.parsed as int + 1,
                        l.count as int,
                        old_records.push(rv),
                        l,
                    ));
                    lemma_acc_count_step(self.parsed as int, s_int);
                    lemma_emitted_step(self.parsed as int, l.count as int, s_int);
                }
                self.cursor = next;
                let i = self.parsed;
                let yield_hint = i % YIELD_EVERY == 0;
                self.parsed = i + 1;
                self.records = Ghost(self.records@.push(rv));
                proof {
                    lemma_accepted_push(old_records, rv, s_int);
                }
                let mut snapshot_out: Option<Splats> = None;
                if i % self.layout.stride == 0 {
                    let RawRecord { mean, scale, opacity, rotation, sh_dc0, sh_dc1, sh_dc2, sh_rest } =
                        rec;
                    let ghost acc0 = spec_accepted(old_records, s_int);
                    let ghost acc1 = spec_accepted(self.records@, s_int);
                    proof {
                        assert(acc1 == acc0.push(rv));
                    }
                    self.appended = self.appended + 1;
                    self.acc_means.push(mean);
                    proof {
                        assert(acc1.map_values(|r: RecordView| r.mean) =~= acc0.map_values(
                            |r: RecordView| r.mean,
                        ).push(rv.mean));
                    }
                    if self.layout.has_rot {
                        self.acc_rotations.push(normalize_quat_bits(rotation));
                        proof {
                            assert(acc1.map_values(|r: RecordView| spec_record_rot(r))
                                =~= acc0.map_values(|r: RecordView| spec_record_rot(r)).push(
                                spec_record_rot(rv),
                            ));
                        }
                    }
                    if self.layout.has_scale {
                        self.acc_scales.push(scale);
                        proof {
                            assert(acc1.map_values(|r: RecordView| r.scale) =~= acc0.map_values(
                                |r: RecordView| r.scale,
                            ).push(rv.scale));
                        }
                    }
                    if self.layout.has_opacity {
                        self.acc_opacities.push(opacity);
                        proof {
                            assert(acc1.map_values(|r: RecordView| r.opacity) =~= acc0.map_values(
                                |r: RecordView| r.opacity,
                            ).push(rv.opacity));
                        }
                    }
                    if self.layout.has_sh {
                        let mut rest = sh_rest;
                        rest.resize(self.layout.sh_rest_len, 0u32);
                        proof {
                            assert(rest@ =~= spec_pad(rv.sh_rest, l.sh_rest_len as int));
                        }
                        let mut block = interleave_coeffs(sh_dc0, sh_dc1, sh_dc2, rest.as_slice());
                        proof {
                            assert(block@ == spec_record_sh(rv, l.sh_rest_len as int));
                            lemma_sh_flat_push(acc0, rv, l.sh_rest_len as int);
                        }
                        self.acc_sh.append(&mut block);
                    }
                    if self.appended % UPDATE_EVERY == 0 && self.parsed < self.layout.count {
                        self.emitted = self.emitted + 1;
                        let s = self.snapshot();
                        snapshot_out = Some(s);
                    }
                    Ok(ImportStep::Parsed { yield_hint, snapshot: snapshot_out })
                } else {
                    proof {
                        assert(spec_accepted(self.records@, s_int) == spec_accepted(
                            old_records,
                            s_int,
                        ));
                    }
                    Ok(ImportStep::Parsed { yield_hint, snapshot: snapshot_out })
                }
            },
        }
    }
}

/// The snapshot sequence a record sequence gives rise to: one intermediate
/// snapshot per `UPDATE_EVERY` appended records (none for a milestone the
/// final record completes), then the complete collection.
pub open spec fn spec_snapshots(records: Seq<RecordView>, l: LayoutView) -> Seq<SplatsView> {
    let accepted = spec_accepted(records, l.stride as int);
    let n_inter = spec_emitted(records.len() as int, records.len() as int, l.stride as int);
    Seq::new(
        n_inter as nat,
        |k: int| spec_collection(accepted.take((k + 1) * (UPDATE_EVERY as int)), l),
    ).push(spec_collection(accepted, l))
}

/// The whole import of a payload: header, layout, records, snapshots, or
/// the first error.
pub open spec fn spec_import(data: Seq<u8>, sub: Option<u32>) -> Result<Seq<SplatsView>, PlyError> {
    match spec_open(data, sub) {
        Err(e) => Err(e),
        Ok((l, pos)) => match spec_records(data, pos, l.count as int, l) {
            Err(e) => Err(e),
            Ok((records, end)) => {
                if spec_accepted(records, l.stride as int).len() == 0 {
                    Err(PlyError::Empty)
                } else {
                    Ok(spec_snapshots(records, l))
                }
            },
        },
    }
}

/// Loads a splat collection from a whole PLY payload, returning every
/// snapshot the stream would deliver, the final complete one last. An
/// asynchronous shell drives `Importer::step` instead, yielding and emitting
/// as the step events ask.
pub fn load_splat_from_ply(data: Vec<u8>, subsample_stride: Option<u32>) -> (r: Result<
    Vec<Splats>,
    PlyError,
>)
    requires
        subsample_stride != Some(0u32),
    ensures
        match r {
            Ok(snaps) => {
                &&& spec_import(data@, subsample_stride) is Ok
                &&& snaps@.len() == spec_import(data@, subsample_stride)->Ok_0.len()
                &&& forall|k: int|
                    0 <= k < snaps@.len() ==> snaps@[k]@ == spec_import(
                        data@,
                        subsample_stride,
                    )->Ok_0[k]
            },
            Err(e) => spec_import(data@, subsample_stride) == Err::<Seq<SplatsView>, PlyError>(e),
        },
{
    let mut imp = match Importer::new(data, subsample_stride) {
        Ok(i) => i,
        Err(e) => {
            return Err(e);
        },
    };
    let ghost l = imp.layoutv();
    let ghost s_int = l.stride as int;
    let ghost pos0 = imp.body_startv();
    let ghost u = UPDATE_EVERY as int;
    let mut snaps: Vec<Splats> = Vec::new();
    loop
        invariant
            imp.inv(),
            !imp.is_finished(),
            imp.datav() == data@,
            imp.layoutv() == l,
            imp.body_startv() == pos0,
            s_int == l.stride as int,
            u == UPDATE_EVERY as int,
            spec_open(data@, subsample_stride) == Ok::<(LayoutView, int), PlyError>((l, pos0)),
            snaps@.len() == imp.emittedv(),
            imp.emittedv() * u <= spec_accepted(imp.recordsv(), s_int).len(),
            forall|k: int|
                0 <= k < snaps@.len() ==> snaps@[k]@ == spec_collection(
                    #[trigger] spec_accepted(imp.recordsv(), s_int).take((k + 1) * u),
                    l,
                ),
        decreases l.count as int - imp.parsedv(),
    {
        let ghost old_records = imp.recordsv();
        let ghost old_emitted = imp.emittedv();
        let ghost old_accepted = spec_accepted(old_records, s_int);
        match imp.step() {
            Err(e) => {
                proof {
                    if old_records.len() == l.count as int {
                        assert(spec_records(data@, pos0, l.count as int, l) == Ok::<
                            (Seq<RecordView>, int),
                            PlyError,
                        >((old_records, imp.cursorv())));
                    }
                }
                return Err(e);
            },
            Ok(ImportStep::Done(s)) => {
                let ghost n_snaps = snaps@.len() as int;
                snaps.push(s);
                proof {
                    assert(spec_records(data@, pos0, l.count as int, l) == Ok::<
                        (Seq<RecordView>, int),
                        PlyError,
                    >((old_records, imp.cursorv())));
                    let sv = spec_snapshots(old_records, l);
                    assert(snaps@.len() == sv.len());
                    assert forall|k: int| 0 <= k < snaps@.len() implies snaps@[k]@ == sv[k] by {
                        if k < n_snaps {
                            assert(snaps@[k] == snaps@.subrange(0, n_snaps)[k]);
                        } else {
                            assert(snaps@[k] == s);
                        }
                    }
                }
                return Ok(snaps);
            },
            Ok(ImportStep::Parsed { yield_hint: _, snapshot }) => {
                proof {
                    let r0 = imp.recordsv().last();
                    assert(imp.recordsv() == old_records.push(r0));
                    lemma_accepted_push(old_records, r0, s_int);
                    let acc1 = spec_accepted(imp.recordsv(), s_int);
                    assert forall|k: int| 0 <= k < old_emitted implies #[trigger] acc1.take(
                        (k + 1) * u,
                    ) == old_accepted.take((k + 1) * u) by {
                        assert((k + 1) * u <= old_emitted * u) by (nonlinear_arith)
                            requires
                                k + 1 <= old_emitted,
                                u >= 1,
                        ;
                        assert(acc1.take((k + 1) * u) =~= old_accepted.take((k + 1) * u));
                    }
                }
                match snapshot {
                    Some(s) => {
                        snaps.push(s);
                        proof {
                            let acc1 = spec_accepted(imp.recordsv(), s_int);
                            assert(acc1.take(imp.emittedv() * u) =~= acc1);
                        }
                    },
                    None => {},
                }
            },
        }
    }
}

/// Law: every snapshot of a successful load is internally consistent — the
/// present vectors share one length, with `sh_per_splat` SH values per splat
/// — and snapshot sizes never decrease along the stream.
pub proof fn lemma_snapshots_consistent(data: Seq<u8>, sub: Option<u32>)
    requires
        spec_import(data, sub) is Ok,
        sub != Some(0u32),
    ensures
        ({
            let snaps = spec_import(data, sub)->Ok_0;
            &&& forall|k: int| 0 <= k < snaps.len() ==> #[trigger] splats_wf(snaps[k])
            &&& forall|k1: int, k2: int|
                0 <= k1 <= k2 < snaps.len() ==> snaps[k1].means.len() <= snaps[k2].means.len()
        }),
{
    let (l, pos) = spec_open(data, sub)->Ok_0;
    lemma_open_wf(data, sub);
    let records = spec_records(data, pos, l.count as int, l)->Ok_0.0;
    let accepted = spec_accepted(records, l.stride as int);
    let u = UPDATE_EVERY as int;
    let n_inter = spec_emitted(records.len() as int, records.len() as int, l.stride as int);
    let snaps = spec_import(data, sub)->Ok_0;
    assert(n_inter * u <= accepted.len()) by {
        lemma_emitted_cap(records.len() as int, l.stride as int);
    }
    assert forall|k: int| 0 <= k < snaps.len() implies #[trigger] splats_wf(snaps[k]) by {
        if k < n_inter {
            assert((k + 1) * u <= n_inter * u) by (nonlinear_arith)
                requires
                    k + 1 <= n_inter,
                    u >= 1,
            ;
            lemma_collection_wf(accepted.take((k + 1) * u), l);
        } else {
            lemma_collection_wf(accepted, l);
        }
    }
    assert forall|k1: int, k2: int|
        0 <= k1 <= k2 < snaps.len() implies snaps[k1].means.len() <= snaps[k2].means.len() by {
        let m1 = if k1 < n_inter {
            (k1 + 1) * u
        } else {
            accepted.len() as int
        };
        let m2 = if k2 < n_inter {
            (k2 + 1) * u
        } else {
            accepted.len() as int
        };
        assert(k1 < n_inter ==> (k1 + 1) * u <= n_inter * u) by (nonlinear_arith)
            requires
                u >= 1,
        ;
        assert(k2 < n_inter ==> (k2 + 1) * u <= n_inter * u) by (nonlinear_arith)
            requires
                u >= 1,
        ;
        assert(k1 <= k2 ==> (k1 + 1) * u <= (k2 + 1) * u) by (nonlinear_arith)
            requires
                u >= 1,
        ;
        assert(snaps[k1].means.len() == m1 && snaps[k2].means.len() == m2);
        assert(m1 <= m2);
    }
}

/// Every collection built from records is internally consistent.
proof fn lemma_collection_wf(accepted: Seq<RecordView>, l: LayoutView)
    requires
        layout_wf(l),
    ensures
        splats_wf(spec_collection(accepted, l)),
        spec_collection(accepted, l).means.len() == accepted.len(),
{
    lemma_sh_flat_len(accepted, l.sh_rest_len as int);
    assert(accepted.len() * (3 + l.sh_rest_len as int) == accepted.len() * ((3
        + l.sh_rest_len as int)));
}

/// A layout that `spec_open` accepts satisfies the layout bounds.
proof fn lemma_open_wf(data: Seq<u8>, sub: Option<u32>)
    requires
        spec_open(data, sub) is Ok,
        sub != Some(0u32),
    ensures
        layout_wf(spec_open(data, sub)->Ok_0.0),
{
    let h = match spec_parse_header(data) {
        Some((h, pos, ok)) => h,
        None => arbitrary(),
    };
    let stride = spec_stride(sub);
    match spec_max_f_rest_from(h.props, 0, None) {
        Some(m) => {
            let q = (m as int + 3) / 3;
            vstd::arithmetic::div_mod::lemma_fundamental_div_mod(m as int + 3, 3);
            assert(q * 3 <= m as int + 3);
            vstd::arithmetic::div_mod::lemma_fundamental_div_mod_converse(q * 3, 3, q, 0);
            assert(q >= 0) by (nonlinear_arith)
                requires
                    m as int + 3 == 3 * q + ((m as int + 3) % 3),
                    (m as int + 3) % 3 < 3,
                    m as int >= 0,
            ;
        },
        None => {},
    }
}

/// The number of intermediate snapshots never exceeds the accepted count in
/// `UPDATE_EVERY` units.
proof fn lemma_emitted_cap(n: int, s: int)
    requires
        n >= 0,
        s >= 1,
    ensures
        spec_emitted(n, n, s) * (UPDATE_EVERY as int) <= spec_accepted_count(n, s),
{
    let u = UPDATE_EVERY as int;
    if n == 0 {
    } else {
        let a1 = spec_accepted_count(n - 1, s);
        let a2 = spec_accepted_count(n, s);
        if n >= 1 {
            lemma_acc_count_step(n - 1, s);
        }
        vstd::arithmetic::div_mod::lemma_fundamental_div_mod(a1, u);
        vstd::arithmetic::div_mod::lemma_mod_bound(a1, u);
        assert((a1 / u) * u <= a1) by (nonlinear_arith)
            requires
                a1 == u * (a1 / u) + a1 % u,
                a1 % u >= 0,
        ;
    }
}

/// Law: sub-sampling with stride `s` accepts exactly `⌈n/s⌉` of `n` records
/// — those at indices `0, s, 2s, …` — in their original order.
pub proof fn lemma_subsample_selection(records: Seq<RecordView>, s: int)
    requires
        s >= 1,
    ensures
        spec_accepted(records, s).len() == (records.len() + s - 1) / s,
        forall|k: int|
            0 <= k < spec_accepted(records, s).len() ==> #[trigger] spec_accepted(records, s)[k]
                == records[k * s],
{
    let n = records.len() as int;
    if n == 0 {
        vstd::arithmetic::div_mod::lemma_fundamental_div_mod_converse(s - 1, s, 0, s - 1);
    } else {
        vstd::arithmetic::div_mod::lemma_fundamental_div_mod(n - 1, s);
        vstd::arithmetic::div_mod::lemma_mod_bound(n - 1, s);
        let q = (n - 1) / s;
        let r = (n - 1) % s;
        assert(n + s - 1 == (q + 1) * s + r) by (nonlinear_arith)
            requires
                n - 1 == s * q + r,
        ;
        vstd::arithmetic::div_mod::lemma_fundamental_div_mod_converse(n + s - 1, s, q + 1, r);
    }
}

/// Law: the snapshot stream is a function of the logical record sequence and
/// of the layout's stride, presence flags, and SH width alone — two payloads
/// that parse to the same records produce identical snapshots, whatever
/// their byte encoding.
pub proof fn lemma_encoding_independent(records: Seq<RecordView>, l1: LayoutView, l2: LayoutView)
    requires
        l1.stride == l2.stride,
        l1.has_rot == l2.has_rot,
        l1.has_scale == l2.has_scale,
        l1.has_sh == l2.has_sh,
        l1.has_opacity == l2.has_opacity,
        l1.sh_rest_len == l2.sh_rest_len,
    ensures
        spec_snapshots(records, l1) == spec_snapshots(records, l2),
{
    let accepted = spec_accepted(records, l1.stride as int);
    assert forall|a: Seq<RecordView>| true implies #[trigger] spec_collection(a, l1)
        == spec_collection(a, l2) by {}
    assert(spec_snapshots(records, l1) =~= spec_snapshots(records, l2));
}

/// Law: each record's SH block in a collection's flattened SH vector starts
/// at `j·(3+rest_len)` with its three DC values, and coefficient `c` of
/// channel `ch` stands at offset `3 + 3c + ch`, drawn from the record's
/// channel-major position `ch·K + c` where `K = rest_len/3`.
pub proof fn lemma_sh_interleaved(rs: Seq<RecordView>, rest_len: int, j: int, c: int, ch: int)
    requires
        rest_len >= 0,
        rest_len % 3 == 0,
        0 <= j < rs.len(),
        0 <= c < rest_len / 3,
        0 <= ch < 3,
        rs[j].sh_rest.len() == rest_len,
    ensures
        spec_sh_flat(rs, rest_len)[j * (3 + rest_len) + 0] == rs[j].sh_dc0,
        spec_sh_flat(rs, rest_len)[j * (3 + rest_len) + 1] == rs[j].sh_dc1,
        spec_sh_flat(rs, rest_len)[j * (3 + rest_len) + 2] == rs[j].sh_dc2,
        spec_sh_flat(rs, rest_len)[j * (3 + rest_len) + 3 + 3 * c + ch] == rs[j].sh_rest[ch * (
        rest_len / 3) + c],
    decreases rs.len(),
{
    let w = 3 + rest_len;
    let k = rest_len / 3;
    lemma_sh_flat_len(rs.drop_last(), rest_len);
    vstd::arithmetic::div_mod::lemma_fundamental_div_mod(rest_len, 3);
    assert(3 * k == rest_len);
    assert(3 * c + ch < rest_len) by (nonlinear_arith)
        requires
            c < k,
            ch < 3,
            3 * k == rest_len,
    ;
    if j == rs.len() - 1 {
        let r = rs.last();
        let pad = spec_pad(r.sh_rest, rest_len);
        assert(pad =~= r.sh_rest);
        let blk = spec_record_sh(r, rest_len);
        let pre = spec_sh_flat(rs.drop_last(), rest_len);
        assert(pre.len() == j * w);
        assert(blk.len() == 3 + 3 * (pad.len() as int / 3));
        assert(pad.len() as int / 3 == k);
        assert(spec_sh_flat(rs, rest_len) == pre + blk);
        assert((3 * c + ch) % 3 == ch && (3 * c + ch) / 3 == c) by (nonlinear_arith)
            requires
                0 <= ch < 3,
                0 <= c,
        ;
        assert(blk[3 + 3 * c + ch] == pad[ch * k + c]);
        assert(blk[0] == r.sh_dc0 && blk[1] == r.sh_dc1 && blk[2] == r.sh_dc2);
    } else {
        lemma_sh_interleaved(rs.drop_last(), rest_len, j, c, ch);
        let pre = spec_sh_flat(rs.drop_last(), rest_len);
        assert(rs.drop_last()[j] == rs[j]);
        assert(j * w + 3 + 3 * c + ch < pre.len()) by (nonlinear_arith)
            requires
                pre.len() == (rs.len() - 1) * w,
                j <= rs.len() - 2,
                3 * c + ch < rest_len,
                w == 3 + rest_len,
                j >= 0,
                rest_len >= 0,
        ;
        assert(spec_sh_flat(rs, rest_len)[j * w + 0] == pre[j * w + 0]);
        assert(spec_sh_flat(rs, rest_len)[j * w + 1] == pre[j * w + 1]);
        assert(spec_sh_flat(rs, rest_len)[j * w + 2] == pre[j * w + 2]);
        assert(spec_sh_flat(rs, rest_len)[j * w + 3 + 3 * c + ch] == pre[j * w + 3 + 3 * c + ch]);
    }
}

/// Whether some property in the list has the given name.
fn has_prop_exec(props: &Vec<PropertyDecl>, name: &[u8]) -> (r: bool)
    ensures
        r == spec_has_prop(props.deep_view(), name@),
{
    let mut found = false;
    let mut k: usize = 0;
    while k < props.len()
        invariant
            k <= props@.len(),
            found == exists|j: int| 0 <= j < k && props.deep_view()[j].name == name@,
        decreases props@.len() - k,
    {
        let nm = props[k].name.as_slice();
        proof {
            assert(props.deep_view()[k as int].name == nm@);
        }
        if crate::text::bytes_eq(nm, name) {
            found = true;
        }
        k += 1;
    }
    found
}

/// The largest `f_rest_{i}` index among the properties.
fn max_f_rest(props: &Vec<PropertyDecl>) -> (r: Option<u32>)
    ensures
        r == spec_max_f_rest_from(props.deep_view(), 0, None),
{
    let ghost pv = props.deep_view();
    let mut acc: Option<u32> = None;
    let mut i: usize = 0;
    while i < props.len()
        invariant
            i <= props@.len(),
            pv == props.deep_view(),
            pv.len() == props@.len(),
            spec_max_f_rest_from(pv, 0, None) == spec_max_f_rest_from(pv, i as int, acc),
        decreases props@.len() - i,
    {
        proof {
            assert(pv[i as int] == props@[i as int]@);
        }
        let nm = props[i].name.as_slice();
        let pfx = "f_rest_".as_bytes();
        let this: Option<u32> = if starts_with(nm, pfx) {
            let suffix = vstd::slice::slice_subrange(nm, pfx.len(), nm.len());
            proof {
                assert(suffix@ =~= nm@.skip("f_rest_".spec_bytes().len() as int));
            }
            parse_u32_bytes(suffix)
        } else {
            None
        };
        acc = match (acc, this) {
            (None, t) => t,
            (Some(a), None) => Some(a),
            (Some(a), Some(t)) => if t > a {
                Some(t)
            } else {
                Some(a)
            },
        };
        i += 1;
    }
    acc
}

} // verus!

