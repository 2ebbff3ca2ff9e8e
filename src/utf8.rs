use vstd::prelude::*;

verus! {

/// Whether `b` is a continuation byte.
pub open spec fn is_cont(b: u8) -> bool {
    0x80 <= b <= 0xbf
}

/// The length of the well-formed UTF-8 sequence that starts at `i`, or 0 when
/// none does: no overlong forms, no surrogates, nothing above U+10FFFF.
pub open spec fn char_len_at(s: Seq<u8>, i: int) -> int {
    let b = s[i];
    if b <= 0x7f {
        1
    } else if 0xc2 <= b <= 0xdf {
        if i + 1 < s.len() && is_cont(s[i + 1]) {
            2
        } else {
            0
        }
    } else if 0xe0 <= b <= 0xef {
        let second_ok = if b == 0xe0 {
            0xa0 <= s[i + 1] <= 0xbf
        } else if b == 0xed {
            0x80 <= s[i + 1] <= 0x9f
        } else {
            is_cont(s[i + 1])
        };
        if i + 2 < s.len() && second_ok && is_cont(s[i + 2]) {
            3
        } else {
            0
        }
    } else if 0xf0 <= b <= 0xf4 {
        let second_ok = if b == 0xf0 {
            0x90 <= s[i + 1] <= 0xbf
        } else if b == 0xf4 {
            0x80 <= s[i + 1] <= 0x8f
        } else {
            is_cont(s[i + 1])
        };
        if i + 3 < s.len() && second_ok && is_cont(s[i + 2]) && is_cont(s[i + 3]) {
            4
        } else {
            0
        }
    } else {
        0
    }
}

/// Whether the bytes from `i` on are a sequence of well-formed characters.
pub open spec fn utf8_from(s: Seq<u8>, i: int) -> bool
    decreases s.len() - i,
{
    if i < 0 || i >= s.len() {
        true
    } else {
        let n = char_len_at(s, i);
        if n <= 0 {
            false
        } else {
            utf8_from(s, i + n)
        }
    }
}

/// Whether `s` is well-formed UTF-8.
pub open spec fn valid_utf8(s: Seq<u8>) -> bool {
    utf8_from(s, 0)
}

fn char_len(s: &Vec<u8>, i: usize) -> (r: usize)
    requires
        i < s@.len(),
    ensures
        r == char_len_at(s@, i as int),
        i + r <= s@.len(),
{
    let n = s.len();
    let b = s[i];
    if b <= 0x7f {
        1
    } else if 0xc2 <= b && b <= 0xdf {
        if i + 1 < n && 0x80 <= s[i + 1] && s[i + 1] <= 0xbf {
            2
        } else {
            0
        }
    } else if 0xe0 <= b && b <= 0xef {
        if n - i <= 2 {
            return 0;
        }
        let c = s[i + 1];
        let second_ok = if b == 0xe0 {
            0xa0 <= c && c <= 0xbf
        } else if b == 0xed {
            0x80 <= c && c <= 0x9f
        } else {
            0x80 <= c && c <= 0xbf
        };
        if second_ok && 0x80 <= s[i + 2] && s[i + 2] <= 0xbf {
            3
        } else {
            0
        }
    } else if 0xf0 <= b && b <= 0xf4 {
        if n - i <= 3 {
            return 0;
        }
        let c = s[i + 1];
        let second_ok = if b == 0xf0 {
            0x90 <= c && c <= 0xbf
        } else if b == 0xf4 {
            0x80 <= c && c <= 0x8f
        } else {
            0x80 <= c && c <= 0xbf
        };
        if second_ok && 0x80 <= s[i + 2] && s[i + 2] <= 0xbf && 0x80 <= s[i + 3] && s[i + 3] <= 0xbf {
            4
        } else {
            0
        }
    } else {
        0
    }
}

/// Whether `s` is well-formed UTF-8.
pub fn is_valid_utf8(s: &Vec<u8>) -> (r: bool)
    ensures
        r == valid_utf8(s@),
{
    let mut i: usize = 0;
    while i < s.len()
        invariant
            i <= s@.len(),
            valid_utf8(s@) == utf8_from(s@, i as int),
        decreases s@.len() - i,
    {
        let n = char_len(s, i);
        if n == 0 {
            return false;
        }
        i = i + n;
    }
    true
}

} // verus!
