//! PLY header parsing for the splat subset: the `ply` magic line, the
//! `format` line, comments, element declarations, and scalar property
//! declarations, terminated by `end_header`. Only the `vertex` element's
//! properties are retained; the header must give it `x`, `y` and `z`.

use crate::text::{bytes_eq, parse_u32_bytes, parse_u32_dec, tokenize, tokens_of};
use vstd::prelude::*;
use vstd::string::StringSliceAdditionalSpecFns;

verus! {

/// How the records after the header are encoded.
#[derive(Clone, Copy, PartialEq, Eq, Structural, Debug)]
pub enum PlyEncoding {
    Ascii,
    BinaryLittleEndian,
    BinaryBigEndian,
}

/// The scalar types a property of this PLY subset may declare. Unrecognized
/// property names keep their declared type so that their payload bytes can
/// still be consumed.
#[derive(Clone, Copy, PartialEq, Eq, Structural, Debug)]
pub enum ScalarType {
    Char,
    UChar,
    Short,
    UShort,
    Int,
    UInt,
    Float,
    Double,
}

impl ScalarType {
    /// Size of one value of this type in a binary record.
    pub open spec fn spec_size(self) -> usize {
        match self {
            ScalarType::Char => 1,
            ScalarType::UChar => 1,
            ScalarType::Short => 2,
            ScalarType::UShort => 2,
            ScalarType::Int => 4,
            ScalarType::UInt => 4,
            ScalarType::Float => 4,
            ScalarType::Double => 8,
        }
    }

    /// Returns the size of one value of this type in a binary record.
    pub fn size(self) -> (r: usize)
        ensures
            r == self.spec_size(),
    {
        match self {
            ScalarType::Char => 1,
            ScalarType::UChar => 1,
            ScalarType::Short => 2,
            ScalarType::UShort => 2,
            ScalarType::Int => 4,
            ScalarType::UInt => 4,
            ScalarType::Float => 4,
            ScalarType::Double => 8,
        }
    }
}

/// The scalar type named by a header token, if any.
pub open spec fn spec_scalar_of(t: Seq<u8>) -> Option<ScalarType> {
    if t == "char".spec_bytes() {
        Some(ScalarType::Char)
    } else if t == "uchar".spec_bytes() {
        Some(ScalarType::UChar)
    } else if t == "short".spec_bytes() {
        Some(ScalarType::Short)
    } else if t == "ushort".spec_bytes() {
        Some(ScalarType::UShort)
    } else if t == "int".spec_bytes() {
        Some(ScalarType::Int)
    } else if t == "uint".spec_bytes() {
        Some(ScalarType::UInt)
    } else if t == "float".spec_bytes() {
        Some(ScalarType::Float)
    } else if t == "double".spec_bytes() {
        Some(ScalarType::Double)
    } else {
        None
    }
}

/// Looks up the scalar type named by a header token.
pub fn scalar_of(t: &[u8]) -> (r: Option<ScalarType>)
    ensures
        r == spec_scalar_of(t@),
{
    if bytes_eq(t, "char".as_bytes()) {
        Some(ScalarType::Char)
    } else if bytes_eq(t, "uchar".as_bytes()) {
        Some(ScalarType::UChar)
    } else if bytes_eq(t, "short".as_bytes()) {
        Some(ScalarType::Short)
    } else if bytes_eq(t, "ushort".as_bytes()) {
        Some(ScalarType::UShort)
    } else if bytes_eq(t, "int".as_bytes()) {
        Some(ScalarType::Int)
    } else if bytes_eq(t, "uint".as_bytes()) {
        Some(ScalarType::UInt)
    } else if bytes_eq(t, "float".as_bytes()) {
        Some(ScalarType::Float)
    } else if bytes_eq(t, "double".as_bytes()) {
        Some(ScalarType::Double)
    } else {
        None
    }
}

/// One property of the vertex element, in declaration order.
#[derive(Debug)]
pub struct PropertyDecl {
    pub name: Vec<u8>,
    pub ty: ScalarType,
}

/// Mathematical view of a property declaration.
pub struct PropView {
    pub name: Seq<u8>,
    pub ty: ScalarType,
}

impl View for PropertyDecl {
    type V = PropView;

    open spec fn view(&self) -> PropView {
        PropView { name: self.name@, ty: self.ty }
    }
}

impl DeepView for PropertyDecl {
    type V = PropView;

    open spec fn deep_view(&self) -> PropView {
        self.view()
    }
}

/// The parsed header: the record encoding, the vertex count, and the vertex
/// element's properties in declaration order.
#[derive(Debug)]
pub struct PlyHeader {
    pub encoding: PlyEncoding,
    pub count: u32,
    pub props: Vec<PropertyDecl>,
}

/// Mathematical view of a parsed header.
pub struct HeaderView {
    pub encoding: PlyEncoding,
    pub count: u32,
    pub props: Seq<PropView>,
}

impl View for PlyHeader {
    type V = HeaderView;

    open spec fn view(&self) -> HeaderView {
        HeaderView { encoding: self.encoding, count: self.count, props: self.props.deep_view() }
    }
}

/// Which of the three fixed leading lines the header scan expects next.
#[derive(Clone, Copy, PartialEq, Eq, Structural, Debug)]
pub enum HeaderPhase {
    /// The `ply` magic line.
    Magic,
    /// The `format <encoding> 1.0` line.
    Format,
    /// Element, property, comment, and `end_header` lines.
    Body,
}

/// Scan state of the header parser, one line at a time.
pub struct HeaderScan {
    pub phase: HeaderPhase,
    pub encoding: PlyEncoding,
    pub cur_is_vertex: bool,
    pub seen_vertex: bool,
    pub count: u32,
    pub props: Vec<PropertyDecl>,
}

/// Mathematical view of the scan state.
pub struct ScanView {
    pub phase: HeaderPhase,
    pub encoding: PlyEncoding,
    pub cur_is_vertex: bool,
    pub seen_vertex: bool,
    pub count: u32,
    pub props: Seq<PropView>,
}

impl View for HeaderScan {
    type V = ScanView;

    open spec fn view(&self) -> ScanView {
        ScanView {
            phase: self.phase,
            encoding: self.encoding,
            cur_is_vertex: self.cur_is_vertex,
            seen_vertex: self.seen_vertex,
            count: self.count,
            props: self.props.deep_view(),
        }
    }
}

/// The scan state every header starts in.
pub open spec fn spec_scan_init() -> ScanView {
    ScanView {
        phase: HeaderPhase::Magic,
        encoding: PlyEncoding::Ascii,
        cur_is_vertex: false,
        seen_vertex: false,
        count: 0,
        props: Seq::empty(),
    }
}

/// Effect of one header line, given as its tokens, on the scan state.
/// `None` means the header is malformed; the returned flag is true exactly
/// on the `end_header` line.
pub open spec fn spec_header_line(st: ScanView, toks: Seq<Seq<u8>>) -> Option<(bool, ScanView)> {
    match st.phase {
        HeaderPhase::Magic => {
            if toks.len() == 1 && toks[0] == "ply".spec_bytes() {
                Some((false, ScanView { phase: HeaderPhase::Format, ..st }))
            } else {
                None
            }
        },
        HeaderPhase::Format => {
            if toks.len() == 3 && toks[0] == "format".spec_bytes() && toks[2]
                == "1.0".spec_bytes() {
                if toks[1] == "ascii".spec_bytes() {
                    Some(
                        (
                            false,
                            ScanView {
                                phase: HeaderPhase::Body,
                                encoding: PlyEncoding::Ascii,
                                ..st
                            },
                        ),
                    )
                } else if toks[1] == "binary_little_endian".spec_bytes() {
                    Some(
                        (
                            false,
                            ScanView {
                                phase: HeaderPhase::Body,
                                encoding: PlyEncoding::BinaryLittleEndian,
                                ..st
                            },
                        ),
                    )
                } else if toks[1] == "binary_big_endian".spec_bytes() {
                    Some(
                        (
                            false,
                            ScanView {
                                phase: HeaderPhase::Body,
                                encoding: PlyEncoding::BinaryBigEndian,
                                ..st
                            },
                        ),
                    )
                } else {
                    None
                }
            } else {
                None
            }
        },
        HeaderPhase::Body => {
            if toks.len() == 0 {
                None
            } else if toks[0] == "comment".spec_bytes() {
                Some((false, st))
            } else if toks[0] == "end_header".spec_bytes() {
                if toks.len() == 1 {
                    Some((true, st))
                } else {
                    None
                }
            } else if toks[0] == "element".spec_bytes() {
                if toks.len() != 3 {
                    None
                } else if toks[1] == "vertex".spec_bytes() {
                    if st.seen_vertex {
                        None
                    } else {
                        match parse_u32_dec(toks[2]) {
                            Some(c) => Some(
                                (
                                    false,
                                    ScanView {
                                        cur_is_vertex: true,
                                        seen_vertex: true,
                                        count: c,
                                        ..st
                                    },
                                ),
                            ),
                            None => None,
                        }
                    }
                } else {
                    Some((false, ScanView { cur_is_vertex: false, ..st }))
                }
            } else if toks[0] == "property".spec_bytes() {
                if !st.cur_is_vertex {
                    Some((false, st))
                } else if toks.len() != 3 {
                    None
                } else {
                    match spec_scalar_of(toks[1]) {
                        Some(ty) => Some(
                            (
                                false,
                                ScanView {
                                    props: st.props.push(PropView { name: toks[2], ty }),
                                    ..st
                                },
                            ),
                        ),
                        None => None,
                    }
                }
            } else {
                None
            }
        },
    }
}

/// Scans the header byte by byte from position `i`, with the line collected
/// so far in `cur`. Yields the scan state at `end_header` and the position
/// just past its line, or `None` when the header is malformed or never
/// terminated.
pub open spec fn spec_header_from(data: Seq<u8>, i: int, cur: Seq<u8>, st: ScanView) -> Option<
    (ScanView, int),
>
    decreases data.len() - i,
{
    if i < 0 || i >= data.len() {
        match spec_header_line(st, tokens_of(cur)) {
            Some((true, st2)) => Some((st2, data.len() as int)),
            _ => None,
        }
    } else if data[i] == 10 {
        match spec_header_line(st, tokens_of(cur)) {
            None => None,
            Some((true, st2)) => Some((st2, i + 1)),
            Some((false, st2)) => spec_header_from(data, i + 1, Seq::empty(), st2),
        }
    } else {
        spec_header_from(data, i + 1, cur.push(data[i]), st)
    }
}

/// Whether some property in `props` has the given name.
pub open spec fn spec_has_prop(props: Seq<PropView>, name: Seq<u8>) -> bool {
    exists|i: int| 0 <= i < props.len() && props[i].name == name
}

/// The header denoted by `data`, with the offset of the first body byte:
/// the byte-by-byte scan, requiring a vertex element and its `x`, `y`, `z`
/// properties. `None` in the first position of the error pair stands for a
/// malformed header, `false` in the second for missing required properties.
pub open spec fn spec_parse_header(data: Seq<u8>) -> Option<(HeaderView, int, bool)> {
    match spec_header_from(data, 0, Seq::empty(), spec_scan_init()) {
        None => None,
        Some((st, pos)) => {
            if !st.seen_vertex {
                None
            } else {
                let ok = spec_has_prop(st.props, "x".spec_bytes()) && spec_has_prop(
                    st.props,
                    "y".spec_bytes(),
                ) && spec_has_prop(st.props, "z".spec_bytes());
                Some(
                    (
                        HeaderView { encoding: st.encoding, count: st.count, props: st.props },
                        pos,
                        ok,
                    ),
                )
            }
        },
    }
}

/// Applies one header line (as tokens) to the scan state.
fn header_line(st: &mut HeaderScan, toks: &Vec<Vec<u8>>) -> (r: Option<bool>)
    ensures
        match r {
            Some(done) => spec_header_line(old(st)@, toks.deep_view()) == Some(
                (done, final(st)@),
            ),
            None => spec_header_line(old(st)@, toks.deep_view()) is None,
        },
{
    let ghost toks_v = toks.deep_view();
    proof {
        assert(toks_v.len() == toks@.len());
        assert forall|j: int| 0 <= j < toks@.len() implies toks_v[j] == toks@[j]@ by {
            assert(toks@[j].deep_view() =~= toks@[j]@);
        }
    }
    match st.phase {
        HeaderPhase::Magic => {
            if toks.len() == 1 && bytes_eq(toks[0].as_slice(), "ply".as_bytes()) {
                st.phase = HeaderPhase::Format;
                Some(false)
            } else {
                None
            }
        },
        HeaderPhase::Format => {
            if toks.len() == 3 && bytes_eq(toks[0].as_slice(), "format".as_bytes()) && bytes_eq(
                toks[2].as_slice(),
                "1.0".as_bytes(),
            ) {
                if bytes_eq(toks[1].as_slice(), "ascii".as_bytes()) {
                    st.phase = HeaderPhase::Body;
                    st.encoding = PlyEncoding::Ascii;
                    Some(false)
                } else if bytes_eq(toks[1].as_slice(), "binary_little_endian".as_bytes()) {
                    st.phase = HeaderPhase::Body;
                    st.encoding = PlyEncoding::BinaryLittleEndian;
                    Some(false)
                } else if bytes_eq(toks[1].as_slice(), "binary_big_endian".as_bytes()) {
                    st.phase = HeaderPhase::Body;
                    st.encoding = PlyEncoding::BinaryBigEndian;
                    Some(false)
                } else {
                    None
                }
            } else {
                None
            }
        },
        HeaderPhase::Body => {
            if toks.len() == 0 {
                None
            } else if bytes_eq(toks[0].as_slice(), "comment".as_bytes()) {
                Some(false)
            } else if bytes_eq(toks[0].as_slice(), "end_header".as_bytes()) {
                if toks.len() == 1 {
                    Some(true)
                } else {
                    None
                }
            } else if bytes_eq(toks[0].as_slice(), "element".as_bytes()) {
                if toks.len() != 3 {
                    None
                } else if bytes_eq(toks[1].as_slice(), "vertex".as_bytes()) {
                    if st.seen_vertex {
                        None
                    } else {
                        match parse_u32_bytes(toks[2].as_slice()) {
                            Some(c) => {
                                st.cur_is_vertex = true;
                                st.seen_vertex = true;
                                st.count = c;
                                Some(false)
                            },
                            None => None,
                        }
                    }
                } else {
                    st.cur_is_vertex = false;
                    Some(false)
                }
            } else if bytes_eq(toks[0].as_slice(), "property".as_bytes()) {
                if !st.cur_is_vertex {
                    Some(false)
                } else if toks.len() != 3 {
                    None
                } else {
                    match scalar_of(toks[1].as_slice()) {
                        Some(ty) => {
                            let ghost prev = st.props.deep_view();
                            let name = toks[2].clone();
                            proof {
                                assert(name@ =~= toks_v[2]);
                            }
                            st.props.push(PropertyDecl { name, ty });
                            proof {
                                assert(st.props.deep_view() =~~= prev.push(
                                    PropView { name: toks_v[2], ty },
                                ));
                            }
                            Some(false)
                        },
                        None => None,
                    }
                }
            } else {
                None
            }
        },
    }
}

/// Parses the PLY header at the start of `data`. On success returns the
/// header together with the offset of the first body byte. Fails with the
/// malformed-header flag `false` when the header itself scans but the vertex
/// element lacks `x`, `y` or `z` (the distinction the caller reports as
/// `MissingRequiredProperty` rather than `InvalidHeader`).
pub fn parse_header(data: &[u8]) -> (r: Result<(PlyHeader, usize), bool>)
    ensures
        match r {
            Ok((h, pos)) => spec_parse_header(data@) == Some((h@, pos as int, true)),
            Err(missing_req) => if missing_req {
                exists|h: HeaderView, pos: int| spec_parse_header(data@) == Some((h, pos, false))
            } else {
                spec_parse_header(data@) is None
            },
        },
{
    let mut st = HeaderScan {
        phase: HeaderPhase::Magic,
        encoding: PlyEncoding::Ascii,
        cur_is_vertex: false,
        seen_vertex: false,
        count: 0,
        props: Vec::new(),
    };
    proof {
        assert(st.props.deep_view() =~~= Seq::<PropView>::empty());
        assert(st@ == spec_scan_init());
    }
    let mut cur: Vec<u8> = Vec::new();
    let mut i: usize = 0;
    let mut done = false;
    let mut pos: usize = 0;
    while i < data.len() && !done
        invariant
            i <= data@.len(),
            !done ==> spec_header_from(data@, 0, Seq::empty(), spec_scan_init())
                == spec_header_from(data@, i as int, cur@, st@),
            done ==> spec_header_from(data@, 0, Seq::empty(), spec_scan_init()) == Some(
                (st@, pos as int),
            ),
        decreases data@.len() - i + (if done {
            0int
        } else {
            1int
        }),
    {
        let b = data[i];
        if b == 10 {
            let toks = tokenize(cur.as_slice());
            match header_line(&mut st, &toks) {
                None => {
                    return Err(false);
                },
                Some(true) => {
                    done = true;
                    pos = i + 1;
                },
                Some(false) => {
                    cur = Vec::new();
                },
            }
        } else {
            cur.push(b);
        }
        i += 1;
    }
    if !done {
        let toks = tokenize(cur.as_slice());
        match header_line(&mut st, &toks) {
            Some(true) => {
                pos = data.len();
            },
            _ => {
                return Err(false);
            },
        }
    }
    if !st.seen_vertex {
        return Err(false);
    }
    let mut has_x = false;
    let mut has_y = false;
    let mut has_z = false;
    let mut k: usize = 0;
    while k < st.props.len()
        invariant
            k <= st.props@.len(),
            has_x == exists|j: int| 0 <= j < k && st.props.deep_view()[j].name == "x".spec_bytes(),
            has_y == exists|j: int| 0 <= j < k && st.props.deep_view()[j].name == "y".spec_bytes(),
            has_z == exists|j: int| 0 <= j < k && st.props.deep_view()[j].name == "z".spec_bytes(),
        decreases st.props@.len() - k,
    {
        let nm = st.props[k].name.as_slice();
        proof {
            assert(st.props.deep_view()[k as int].name == nm@);
        }
        if bytes_eq(nm, "x".as_bytes()) {
            has_x = true;
        }
        if bytes_eq(nm, "y".as_bytes()) {
            has_y = true;
        }
        if bytes_eq(nm, "z".as_bytes()) {
            has_z = true;
        }
        k += 1;
    }
    proof {
        assert(has_x == spec_has_prop(st@.props, "x".spec_bytes()));
        assert(has_y == spec_has_prop(st@.props, "y".spec_bytes()));
        assert(has_z == spec_has_prop(st@.props, "z".spec_bytes()));
    }
    if !(has_x && has_y && has_z) {
        return Err(true);
    }
    let header = PlyHeader { encoding: st.encoding, count: st.count, props: st.props };
    Ok((header, pos))
}

} // verus!
