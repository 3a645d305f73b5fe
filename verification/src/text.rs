//! Plain-text helpers for the diagnostic dumps: digit characters, decimal
//! and hexadecimal rendering, and string comparison.

use vstd::prelude::*;

verus! {

/// The character for a single base-16 digit (also used for base 10).
pub open spec fn digit_char(d: int) -> char {
    if d == 0 {
        '0'
    } else if d == 1 {
        '1'
    } else if d == 2 {
        '2'
    } else if d == 3 {
        '3'
    } else if d == 4 {
        '4'
    } else if d == 5 {
        '5'
    } else if d == 6 {
        '6'
    } else if d == 7 {
        '7'
    } else if d == 8 {
        '8'
    } else if d == 9 {
        '9'
    } else if d == 10 {
        'A'
    } else if d == 11 {
        'B'
    } else if d == 12 {
        'C'
    } else if d == 13 {
        'D'
    } else if d == 14 {
        'E'
    } else {
        'F'
    }
}

pub fn digit_char_ex(d: u8) -> (c: char)
    requires
        d < 16,
    ensures
        c == digit_char(d as int),
{
    if d == 0 {
        '0'
    } else if d == 1 {
        '1'
    } else if d == 2 {
        '2'
    } else if d == 3 {
        '3'
    } else if d == 4 {
        '4'
    } else if d == 5 {
        '5'
    } else if d == 6 {
        '6'
    } else if d == 7 {
        '7'
    } else if d == 8 {
        '8'
    } else if d == 9 {
        '9'
    } else if d == 10 {
        'A'
    } else if d == 11 {
        'B'
    } else if d == 12 {
        'C'
    } else if d == 13 {
        'D'
    } else if d == 14 {
        'E'
    } else {
        'F'
    }
}

/// Relies on std's String::push: appends exactly the given character.
#[verifier::external_body]
pub fn push_char(s: &mut String, c: char)
    ensures
        final(s)@ == old(s)@.push(c),
{
    s.push(c);
}

/// The decimal rendering of a non-negative number.
pub open spec fn dec_chars(n: int) -> Seq<char>
    decreases n,
{
    if n < 0 {
        Seq::empty()
    } else if n < 10 {
        seq![digit_char(n)]
    } else {
        dec_chars(n / 10).push(digit_char(n % 10))
    }
}

pub fn push_dec_u64(s: &mut String, n: u64)
    ensures
        final(s)@ == old(s)@ + dec_chars(n as int),
    decreases n,
{
    if n < 10 {
        push_char(s, digit_char_ex(n as u8));
        proof {
            assert(final(s)@ =~= old(s)@ + dec_chars(n as int));
        }
    } else {
        push_dec_u64(s, n / 10);
        push_char(s, digit_char_ex((n % 10) as u8));
        proof {
            assert(final(s)@ =~= old(s)@ + dec_chars(n as int));
        }
    }
}

/// The four-character hexadecimal rendering of a 16-bit value.
pub open spec fn hex4_chars(v: u16) -> Seq<char> {
    seq![
        digit_char(((v >> 12) & 0xF) as int),
        digit_char(((v >> 8) & 0xF) as int),
        digit_char(((v >> 4) & 0xF) as int),
        digit_char((v & 0xF) as int),
    ]
}

pub fn push_hex4(s: &mut String, v: u16)
    ensures
        final(s)@ == old(s)@ + hex4_chars(v),
{
    proof {
        assert((v >> 12) & 0xF < 16 && (v >> 8) & 0xF < 16 && (v >> 4) & 0xF < 16 && v & 0xF < 16)
            by (bit_vector);
    }
    push_char(s, digit_char_ex(((v >> 12) & 0xF) as u8));
    push_char(s, digit_char_ex(((v >> 8) & 0xF) as u8));
    push_char(s, digit_char_ex(((v >> 4) & 0xF) as u8));
    push_char(s, digit_char_ex((v & 0xF) as u8));
    proof {
        assert(final(s)@ =~= old(s)@ + hex4_chars(v));
    }
}

/// The two-character hexadecimal rendering of a byte.
pub open spec fn hex2_chars(v: u8) -> Seq<char> {
    seq![digit_char(((v >> 4) & 0xF) as int), digit_char((v & 0xF) as int)]
}

pub fn push_hex2(s: &mut String, v: u8)
    ensures
        final(s)@ == old(s)@ + hex2_chars(v),
{
    proof {
        assert((v >> 4) & 0xF < 16 && v & 0xF < 16) by (bit_vector);
    }
    push_char(s, digit_char_ex((v >> 4) & 0xF));
    push_char(s, digit_char_ex(v & 0xF));
    proof {
        assert(final(s)@ =~= old(s)@ + hex2_chars(v));
    }
}

/// Character-by-character string equality.
pub fn str_eq(a: &str, b: &str) -> (r: bool)
    ensures
        r == (a@ == b@),
{
    let alen = a.unicode_len();
    let blen = b.unicode_len();
    if alen != blen {
        return false;
    }
    let mut i: usize = 0;
    while i < alen
        invariant
            i <= alen,
            alen == a@.len(),
            alen == b@.len(),
            forall|j: int| 0 <= j < i ==> a@[j] == b@[j],
        decreases alen - i,
    {
        if a.get_char(i) != b.get_char(i) {
            return false;
        }
        i = i + 1;
    }
    proof {
        assert(a@ =~= b@);
    }
    true
}

} // verus!
