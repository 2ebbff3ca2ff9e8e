use vstd::prelude::*;

use crate::error::DecodeError;

verus! {

/// Major type of an unsigned integer item.
pub const MAJOR_UINT: u8 = 0;

/// Major type of a byte string item.
pub const MAJOR_BYTES: u8 = 2;

/// Major type of a text string item.
pub const MAJOR_TEXT: u8 = 3;

/// Major type of a list item.
pub const MAJOR_ARRAY: u8 = 4;

/// The number that a big-endian byte sequence spells.
pub open spec fn be_value(s: Seq<u8>) -> nat
    decreases s.len(),
{
    if s.len() == 0 {
        0
    } else {
        be_value(s.drop_last()) * 256 + s.last() as nat
    }
}

pub open spec fn pow256(n: nat) -> nat
    decreases n,
{
    if n == 0 {
        1
    } else {
        256 * pow256((n - 1) as nat)
    }
}

/// How many argument bytes follow a header whose low five bits are `info`
/// (24 to 27).
pub open spec fn arg_width(info: u8) -> int {
    if info == 24 {
        1
    } else if info == 25 {
        2
    } else if info == 26 {
        4
    } else {
        8
    }
}

/// An item header: its major type, its argument (a value, a length or a
/// count), and the position just after it.
pub struct Head {
    pub major: u8,
    pub arg: nat,
    pub end: int,
}

/// The header at `pos`. The low five bits below 24 are the argument itself;
/// 24 to 27 say that 1, 2, 4 or 8 big-endian bytes follow; 28 to 31
/// (reserved values and indefinite lengths) are refused.
pub open spec fn parse_head(s: Seq<u8>, pos: int) -> Result<Head, DecodeError> {
    if pos < 0 || pos >= s.len() {
        Err(DecodeError::Truncated)
    } else {
        let b = s[pos];
        let major = b / 32;
        let info = b % 32;
        if info < 24 {
            Ok(Head { major, arg: info as nat, end: pos + 1 })
        } else if info > 27 {
            Err(DecodeError::UnsupportedHeader)
        } else if pos + 1 + arg_width(info) > s.len() {
            Err(DecodeError::Truncated)
        } else {
            Ok(
                Head {
                    major,
                    arg: be_value(s.subrange(pos + 1, pos + 1 + arg_width(info))),
                    end: pos + 1 + arg_width(info),
                },
            )
        }
    }
}

/// An unsigned integer item at `pos`, and the position after it.
pub open spec fn parse_uint(s: Seq<u8>, pos: int) -> Result<(nat, int), DecodeError> {
    match parse_head(s, pos) {
        Err(e) => Err(e),
        Ok(h) => if h.major != MAJOR_UINT {
            Err(DecodeError::UnexpectedType)
        } else {
            Ok((h.arg, h.end))
        },
    }
}

/// A string item of the given major type at `pos`: its content, and the
/// position after it.
pub open spec fn parse_string(s: Seq<u8>, pos: int, major: u8) -> Result<(Seq<u8>, int), DecodeError> {
    match parse_head(s, pos) {
        Err(e) => Err(e),
        Ok(h) => if h.major != major {
            Err(DecodeError::UnexpectedType)
        } else if h.end + h.arg > s.len() {
            Err(DecodeError::Truncated)
        } else {
            Ok((s.subrange(h.end, h.end + h.arg), h.end + h.arg))
        },
    }
}

proof fn lemma_pow256_mono(a: nat, b: nat)
    requires
        a <= b,
    ensures
        pow256(a) <= pow256(b),
    decreases b,
{
    if a < b {
        lemma_pow256_mono(a, (b - 1) as nat);
    }
}

/// The header that a result of `read_head` stands for.
pub open spec fn head_of(r: Result<(u8, u64, usize), DecodeError>) -> Result<Head, DecodeError> {
    match r {
        Ok((major, arg, end)) => Ok(Head { major, arg: arg as nat, end: end as int }),
        Err(e) => Err(e),
    }
}

/// Reads the header at `pos`.
pub fn read_head(s: &[u8], pos: usize) -> (r: Result<(u8, u64, usize), DecodeError>)
    ensures
        head_of(r) == parse_head(s@, pos as int),
        r matches Ok((_, _, end)) ==> pos < end <= s@.len(),
{
    if pos >= s.len() {
        return Err(DecodeError::Truncated);
    }
    let b = s[pos];
    let major = b / 32;
    let info = b % 32;
    if info < 24 {
        return Ok((major, info as u64, pos + 1));
    }
    if info > 27 {
        return Err(DecodeError::UnsupportedHeader);
    }
    let w: usize = if info == 24 {
        1
    } else if info == 25 {
        2
    } else if info == 26 {
        4
    } else {
        8
    };
    if s.len() - pos - 1 < w {
        return Err(DecodeError::Truncated);
    }
    let n = s.len();
    let start = pos + 1;
    let mut v: u64 = 0;
    let mut i: usize = 0;
    assert(s@.subrange(start as int, start as int) =~= Seq::<u8>::empty());
    while i < w
        invariant
            n == s@.len(),
            start + w <= n,
            i <= w <= 8,
            v as nat == be_value(s@.subrange(start as int, start + i)),
            v < pow256(i as nat),
        decreases w - i,
    {
        let ghost p = pow256(i as nat);
        proof {
            assert(s@.subrange(start as int, start + i + 1).drop_last() =~= s@.subrange(
                start as int,
                start + i,
            ));
            lemma_pow256_mono((i + 1) as nat, 8);
            reveal_with_fuel(pow256, 9);
            assert(pow256(8) == 0x1_0000_0000_0000_0000);
        }
        let byte = s[start + i];
        assert(v * 256 + byte < p * 256) by (nonlinear_arith)
            requires
                v < p,
                byte < 256,
        ;
        v = v * 256 + byte as u64;
        i = i + 1;
    }
    Ok((major, v, start + w))
}

/// Reads an unsigned integer item at `pos`.
pub fn read_uint(s: &[u8], pos: usize) -> (r: Result<(u64, usize), DecodeError>)
    ensures
        match r {
            Ok((v, end)) => parse_uint(s@, pos as int) == Ok::<(nat, int), DecodeError>(
                (v as nat, end as int),
            ),
            Err(e) => parse_uint(s@, pos as int) == Err::<(nat, int), DecodeError>(e),
        },
        r matches Ok((_, end)) ==> pos < end <= s@.len(),
{
    let (major, arg, end) = read_head(s, pos)?;
    if major != MAJOR_UINT {
        return Err(DecodeError::UnexpectedType);
    }
    Ok((arg, end))
}

/// Reads a string item of the given major type at `pos`.
pub fn read_string<'a>(s: &'a [u8], pos: usize, major: u8) -> (r: Result<(&'a [u8], usize), DecodeError>)
    ensures
        match r {
            Ok((b, end)) => parse_string(s@, pos as int, major) == Ok::<(Seq<u8>, int), DecodeError>(
                (b@, end as int),
            ),
            Err(e) => parse_string(s@, pos as int, major) == Err::<(Seq<u8>, int), DecodeError>(e),
        },
        r matches Ok((_, end)) ==> pos < end <= s@.len(),
{
    let (m, len, start) = read_head(s, pos)?;
    if m != major {
        return Err(DecodeError::UnexpectedType);
    }
    if len > (s.len() - start) as u64 {
        return Err(DecodeError::Truncated);
    }
    let end = start + len as usize;
    Ok((vstd::slice::slice_subrange(s, start, end), end))
}

} // verus!
