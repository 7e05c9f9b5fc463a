//! Small string helpers shared across the crate.

use vstd::prelude::*;

verus! {

/// Relies on `str`'s `==` (PartialEq): two string slices are equal exactly
/// when they hold the same characters.
#[verifier::external_body]
pub(crate) fn str_eq(a: &str, b: &str) -> (r: bool)
    ensures
        r == (a@ == b@),
{
    a == b
}

/// The character of one decimal digit.
pub open spec fn dec_digit(d: int) -> char
    recommends
        0 <= d < 10,
{
    if d == 0 {
        '0'
    } else if d == 1 {
        '1'
    } else if d == 2 {
        '2'
    } else if d == 3 {
        '3'
    } else if d == 4 {
        '4'
    } else if d == 5 {
        '5'
    } else if d == 6 {
        '6'
    } else if d == 7 {
        '7'
    } else if d == 8 {
        '8'
    } else {
        '9'
    }
}

/// The decimal notation of a non-negative integer, most significant digit
/// first, without leading zeroes (a single `'0'` for zero).
pub open spec fn dec_chars(v: int) -> Seq<char>
    recommends
        v >= 0,
    decreases v,
{
    if v < 10 {
        seq![dec_digit(v)]
    } else {
        dec_chars(v / 10).push(dec_digit(v % 10))
    }
}

/// The single-character string of one decimal digit.
fn digit_str(d: u64) -> (r: String)
    requires
        d < 10,
    ensures
        r@ == seq![dec_digit(d as int)],
{
    let r: String = match d {
        0 => "0".to_owned(),
        1 => "1".to_owned(),
        2 => "2".to_owned(),
        3 => "3".to_owned(),
        4 => "4".to_owned(),
        5 => "5".to_owned(),
        6 => "6".to_owned(),
        7 => "7".to_owned(),
        8 => "8".to_owned(),
        _ => "9".to_owned(),
    };
    proof {
        reveal_strlit("0");
        reveal_strlit("1");
        reveal_strlit("2");
        reveal_strlit("3");
        reveal_strlit("4");
        reveal_strlit("5");
        reveal_strlit("6");
        reveal_strlit("7");
        reveal_strlit("8");
        reveal_strlit("9");
        assert(r@ =~= seq![dec_digit(d as int)]);
    }
    r
}

/// Render an unsigned integer in decimal.
pub fn u64_to_string(v: u64) -> (r: String)
    ensures
        r@ == dec_chars(v as int),
    decreases v,
{
    if v < 10 {
        digit_str(v)
    } else {
        let mut r: String = u64_to_string(v / 10);
        let d: String = digit_str(v % 10);
        r.append(d.as_str());
        proof {
            assert(r@ =~= dec_chars(v as int / 10).push(dec_digit(v as int % 10)));
        }
        r
    }
}

/// Render an unsigned 32-bit integer in decimal.
pub fn u32_to_string(v: u32) -> (r: String)
    ensures
        r@ == dec_chars(v as int),
{
    u64_to_string(v as u64)
}

/// Pieces of text joined with a separator between consecutive pieces.
pub open spec fn join_chars(parts: Seq<Seq<char>>, sep: Seq<char>) -> Seq<char>
    decreases parts.len(),
{
    if parts.len() == 0 {
        Seq::empty()
    } else if parts.len() == 1 {
        parts[0]
    } else {
        join_chars(parts.drop_last(), sep) + sep + parts.last()
    }
}

/// The decimal notation of a signed integer: a minus sign when negative,
/// then the magnitude's digits.
pub open spec fn int_chars(v: int) -> Seq<char> {
    if v < 0 {
        seq!['-'] + dec_chars(-v)
    } else {
        dec_chars(v)
    }
}

/// Render a signed 16-bit integer in decimal.
pub fn i16_to_string(v: i16) -> (r: String)
    ensures
        r@ == int_chars(v as int),
{
    let wide: i32 = v as i32;
    let mag: u64 = if wide < 0 {
        (-wide) as u64
    } else {
        wide as u64
    };
    let digits: String = u64_to_string(mag);
    if wide < 0 {
        let mut r: String = "-".to_owned();
        r.append(digits.as_str());
        proof {
            reveal_strlit("-");
            assert(r@ =~= int_chars(v as int));
        }
        r
    } else {
        digits
    }
}

/// The notation of a basis-point value as a percentage with two decimal
/// places: an optional minus sign, the whole percents, a dot, and two
/// digits of fraction.
pub open spec fn percent_chars(bp: int) -> Seq<char> {
    let mag = if bp < 0 {
        -bp
    } else {
        bp
    };
    (if bp < 0 {
        seq!['-']
    } else {
        Seq::<char>::empty()
    }) + dec_chars(mag / 100) + seq!['.', dec_digit((mag % 100) / 10), dec_digit(mag % 10)]
}

/// Render a basis-point value as a percentage with two decimal places
/// (for example 5734 as `57.34`).
pub fn percent_string(bp: i16) -> (r: String)
    ensures
        r@ == percent_chars(bp as int),
{
    let wide: i32 = bp as i32;
    let mag: u64 = if wide < 0 {
        (-wide) as u64
    } else {
        wide as u64
    };
    let mut r: String = if wide < 0 {
        "-".to_owned()
    } else {
        "".to_owned()
    };
    let whole: String = u64_to_string(mag / 100);
    r.append(whole.as_str());
    r.append(".");
    let tens: String = digit_str((mag % 100) / 10);
    r.append(tens.as_str());
    let ones: String = digit_str(mag % 10);
    r.append(ones.as_str());
    proof {
        reveal_strlit("-");
        reveal_strlit("");
        reveal_strlit(".");
        assert(r@ =~= percent_chars(bp as int));
    }
    r
}

} // verus!
