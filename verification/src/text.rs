use vstd::prelude::*;

verus! {

/// True of the bytes that separate tokens on a header or ASCII-record line
/// (space, tab, and carriage return, so that CRLF line endings need no
/// special handling).
pub open spec fn is_space(b: u8) -> bool {
    b == 32 || b == 9 || b == 13
}

/// The tokens of `s` from position `i` on, given the token collected so far
/// (`cur`) and the tokens already complete (`acc`): the left-to-right
/// maximal runs of non-separator bytes.
pub open spec fn spec_tokenize_from(s: Seq<u8>, i: int, cur: Seq<u8>, acc: Seq<Seq<u8>>) -> Seq<
    Seq<u8>,
>
    decreases s.len() - i,
{
    if i < 0 || i >= s.len() {
        if cur.len() > 0 {
            acc.push(cur)
        } else {
            acc
        }
    } else if is_space(s[i]) {
        if cur.len() > 0 {
            spec_tokenize_from(s, i + 1, Seq::empty(), acc.push(cur))
        } else {
            spec_tokenize_from(s, i + 1, cur, acc)
        }
    } else {
        spec_tokenize_from(s, i + 1, cur.push(s[i]), acc)
    }
}

/// The whitespace-separated tokens of `s`, in order.
pub open spec fn tokens_of(s: Seq<u8>) -> Seq<Seq<u8>> {
    spec_tokenize_from(s, 0, Seq::empty(), Seq::empty())
}

/// Splits a line into its whitespace-separated tokens.
pub fn tokenize(line: &[u8]) -> (r: Vec<Vec<u8>>)
    ensures
        r.deep_view() == tokens_of(line@),
{
    let mut acc: Vec<Vec<u8>> = Vec::new();
    let mut cur: Vec<u8> = Vec::new();
    let mut i: usize = 0;
    proof {
        assert(acc.deep_view() =~~= Seq::<Seq<u8>>::empty());
    }
    while i < line.len()
        invariant
            i <= line@.len(),
            tokens_of(line@) == spec_tokenize_from(line@, i as int, cur@, acc.deep_view()),
        decreases line@.len() - i,
    {
        let b = line[i];
        if b == 32 || b == 9 || b == 13 {
            if cur.len() > 0 {
                let ghost prev = acc.deep_view();
                acc.push(cur);
                proof {
                    assert(acc.deep_view() =~~= prev.push(cur@));
                }
                cur = Vec::new();
            }
        } else {
            cur.push(b);
        }
        i += 1;
    }
    if cur.len() > 0 {
        let ghost prev = acc.deep_view();
        acc.push(cur);
        proof {
            assert(acc.deep_view() =~~= prev.push(cur@));
        }
    }
    acc
}

/// The value of the decimal digits of `s` from position `i` on, accumulated
/// onto `acc`; `None` on a non-digit byte or on overflow of 32 bits.
pub open spec fn dec_digits_from(s: Seq<u8>, i: int, acc: u32) -> Option<u32>
    decreases s.len() - i,
{
    if i < 0 || i >= s.len() {
        Some(acc)
    } else if !(48 <= s[i] <= 57) {
        None
    } else if acc * 10 + (s[i] - 48) > u32::MAX {
        None
    } else {
        dec_digits_from(s, i + 1, (acc * 10 + (s[i] - 48)) as u32)
    }
}

/// The unsigned decimal number written by `s`: an optional leading `+`,
/// then one or more digits, with a value that fits in 32 bits.
pub open spec fn parse_u32_dec(s: Seq<u8>) -> Option<u32> {
    let t = if s.len() > 0 && s[0] == 43 {
        s.subrange(1, s.len() as int)
    } else {
        s
    };
    if t.len() == 0 {
        None
    } else {
        dec_digits_from(t, 0, 0)
    }
}

/// Parses an unsigned 32-bit decimal number.
pub fn parse_u32_bytes(s: &[u8]) -> (r: Option<u32>)
    ensures
        r == parse_u32_dec(s@),
{
    let mut i: usize = 0;
    if s.len() > 0 && s[0] == 43 {
        i = 1;
    }
    let ghost t = if s@.len() > 0 && s@[0] == 43 {
        s@.subrange(1, s@.len() as int)
    } else {
        s@
    };
    proof {
        assert(t =~= s@.subrange(i as int, s@.len() as int));
    }
    if i == s.len() {
        return None;
    }
    let mut acc: u32 = 0;
    let mut j: usize = i;
    while j < s.len()
        invariant
            i <= j <= s@.len(),
            t == s@.subrange(i as int, s@.len() as int),
            parse_u32_dec(s@) == dec_digits_from(t, j - i, acc),
        decreases s@.len() - j,
    {
        let b = s[j];
        proof {
            assert(t[j - i] == s@[j as int]);
        }
        if b < 48 || b > 57 {
            return None;
        }
        let d = (b - 48) as u32;
        if acc > (u32::MAX - d) / 10 {
            proof {
                assert(acc * 10 + d > u32::MAX) by (nonlinear_arith)
                    requires
                        acc > (u32::MAX - d) / 10,
                        d <= 9,
                ;
            }
            return None;
        }
        proof {
            assert(acc * 10 + d <= u32::MAX) by (nonlinear_arith)
                requires
                    acc <= (u32::MAX - d) / 10,
                    d <= 9,
            ;
        }
        acc = acc * 10 + d;
        j += 1;
    }
    Some(acc)
}

/// Parses an unsigned decimal number that must fit in 8 bits.
pub fn parse_u8_bytes(s: &[u8]) -> (r: Option<u8>)
    ensures
        r == match parse_u32_dec(s@) {
            Some(v) => if v <= 255 {
                Some(v as u8)
            } else {
                None::<u8>
            },
            None => None::<u8>,
        },
{
    match parse_u32_bytes(s) {
        Some(v) => if v <= 255 {
            Some(v as u8)
        } else {
            None
        },
        None => None,
    }
}

/// Compares two byte slices for equality.
pub fn bytes_eq(a: &[u8], b: &[u8]) -> (r: bool)
    ensures
        r == (a@ == b@),
{
    if a.len() != b.len() {
        return false;
    }
    let mut i: usize = 0;
    while i < a.len()
        invariant
            a@.len() == b@.len(),
            i <= a@.len(),
            forall|k: int| 0 <= k < i ==> a@[k] == b@[k],
        decreases a@.len() - i,
    {
        if a[i] != b[i] {
            return false;
        }
        i += 1;
    }
    proof {
        assert(a@ =~= b@);
    }
    true
}

/// True when `p` is a prefix of `s`.
pub open spec fn is_prefix_of(p: Seq<u8>, s: Seq<u8>) -> bool {
    p.len() <= s.len() && s.subrange(0, p.len() as int) == p
}

/// Tests whether `s` starts with `p`.
pub fn starts_with(s: &[u8], p: &[u8]) -> (r: bool)
    ensures
        r == is_prefix_of(p@, s@),
{
    if s.len() < p.len() {
        return false;
    }
    let mut i: usize = 0;
    while i < p.len()
        invariant
            p@.len() <= s@.len(),
            i <= p@.len(),
            forall|k: int| 0 <= k < i ==> s@[k] == p@[k],
        decreases p@.len() - i,
    {
        if s[i] != p[i] {
            proof {
                assert(s@.subrange(0, p@.len() as int)[i as int] == s@[i as int]);
            }
            return false;
        }
        i += 1;
    }
    proof {
        assert(s@.subrange(0, p@.len() as int) =~= p@);
    }
    true
}

} // verus!
