//! Building the exact strings that contracts speak of: decimal
//! renderings of port numbers and exit codes, and concatenation.

use vstd::prelude::*;

verus! {

/// Relies on `String::push_str` from std: appends the characters of
/// `other` to `s`, changing nothing else.
pub assume_specification[ String::push_str ](s: &mut String, other: &str)
    ensures
        final(s)@ == old(s)@ + other@,
;

/// The character for one decimal digit.
pub open spec fn digit_char(d: nat) -> char {
    if d == 0 {
        '0'
    } else if d == 1 {
        '1'
    } else if d == 2 {
        '2'
    } else if d == 3 {
        '3'
    } else if d == 4 {
        '4'
    } else if d == 5 {
        '5'
    } else if d == 6 {
        '6'
    } else if d == 7 {
        '7'
    } else if d == 8 {
        '8'
    } else {
        '9'
    }
}

/// Decimal rendering of a natural number, most significant digit first,
/// with no leading zeroes (a lone `0` for zero).
pub open spec fn dec_seq(n: nat) -> Seq<char>
    decreases n,
{
    if n < 10 {
        seq![digit_char(n)]
    } else {
        dec_seq(n / 10) + seq![digit_char(n % 10)]
    }
}

/// Decimal rendering of an integer: a minus sign before the magnitude
/// when negative.
pub open spec fn int_dec_seq(v: int) -> Seq<char> {
    if v >= 0 {
        dec_seq(v as nat)
    } else {
        seq!['-'] + dec_seq((-v) as nat)
    }
}

/// One-character string slice for a decimal digit.
fn digit_str(d: u8) -> (r: &'static str)
    requires
        d < 10,
    ensures
        r@ == seq![digit_char(d as nat)],
{
    proof {
        reveal_strlit("0");
        reveal_strlit("1");
        reveal_strlit("2");
        reveal_strlit("3");
        reveal_strlit("4");
        reveal_strlit("5");
        reveal_strlit("6");
        reveal_strlit("7");
        reveal_strlit("8");
        reveal_strlit("9");
    }
    let r = if d == 0 {
        "0"
    } else if d == 1 {
        "1"
    } else if d == 2 {
        "2"
    } else if d == 3 {
        "3"
    } else if d == 4 {
        "4"
    } else if d == 5 {
        "5"
    } else if d == 6 {
        "6"
    } else if d == 7 {
        "7"
    } else if d == 8 {
        "8"
    } else {
        "9"
    };
    proof {
        assert(r@ =~= seq![digit_char(d as nat)]);
    }
    r
}

/// Decimal rendering of a `u32`.
pub fn dec_u32(n: u32) -> (s: String)
    ensures
        s@ == dec_seq(n as nat),
    decreases n,
{
    if n < 10 {
        let s = digit_str(n as u8).to_owned();
        s
    } else {
        proof {
            assert(n / 10 < n);
        }
        let mut s = dec_u32(n / 10);
        s.push_str(digit_str((n % 10) as u8));
        proof {
            assert(s@ =~= dec_seq(n as nat));
        }
        s
    }
}

/// Decimal rendering of a `u16`.
pub fn dec_u16(n: u16) -> (s: String)
    ensures
        s@ == dec_seq(n as nat),
{
    dec_u32(n as u32)
}

/// Decimal rendering of an `i32`, sign included.
pub fn dec_i32(v: i32) -> (s: String)
    ensures
        s@ == int_dec_seq(v as int),
{
    if v >= 0 {
        dec_u32(v as u32)
    } else {
        let wide: i64 = v as i64;
        let mag: u32 = (-wide) as u32;
        let mut s = "-".to_owned();
        let digits = dec_u32(mag);
        s.push_str(digits.as_str());
        proof {
            reveal_strlit("-");
            assert(s@ =~= int_dec_seq(v as int));
        }
        s
    }
}

} // verus!
