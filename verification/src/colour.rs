//! The legacy text form of a pixel: one `R G B` line per colour.

use vstd::prelude::*;
use vstd::string::StringExecFns;

use crate::vec3::{to_byte, Colour};

verus! {

/// The character of one decimal digit.
pub open spec fn digit_char(d: int) -> char
    recommends
        0 <= d <= 9,
{
    if d == 0 {
        '0'
    } else if d == 1 {
        '1'
    } else if d == 2 {
        '2'
    } else if d == 3 {
        '3'
    } else if d == 4 {
        '4'
    } else if d == 5 {
        '5'
    } else if d == 6 {
        '6'
    } else if d == 7 {
        '7'
    } else if d == 8 {
        '8'
    } else {
        '9'
    }
}

/// The decimal digits of a byte value, without leading zeroes.
pub open spec fn dec_digits(n: int) -> Seq<char>
    recommends
        0 <= n < 256,
{
    if n >= 100 {
        seq![digit_char(n / 100), digit_char((n / 10) % 10), digit_char(n % 10)]
    } else if n >= 10 {
        seq![digit_char(n / 10), digit_char(n % 10)]
    } else {
        seq![digit_char(n)]
    }
}

/// The legacy text line of a colour: its three quantised channels as
/// space-separated decimal integers, newline-terminated.
pub open spec fn spec_colour_line(c: Colour) -> Seq<char> {
    dec_digits(to_byte(c.x as int) as int) + seq![' '] + dec_digits(to_byte(c.y as int) as int)
        + seq![' '] + dec_digits(to_byte(c.z as int) as int) + seq!['\n']
}

fn append_digit(s: &mut String, d: u8)
    requires
        d <= 9,
    ensures
        final(s)@ == old(s)@ + seq![digit_char(d as int)],
{
    proof {
        reveal_strlit("0");
        reveal_strlit("1");
        reveal_strlit("2");
        reveal_strlit("3");
        reveal_strlit("4");
        reveal_strlit("5");
        reveal_strlit("6");
        reveal_strlit("7");
        reveal_strlit("8");
        reveal_strlit("9");
    }
    if d == 0 {
        s.append("0");
    } else if d == 1 {
        s.append("1");
    } else if d == 2 {
        s.append("2");
    } else if d == 3 {
        s.append("3");
    } else if d == 4 {
        s.append("4");
    } else if d == 5 {
        s.append("5");
    } else if d == 6 {
        s.append("6");
    } else if d == 7 {
        s.append("7");
    } else if d == 8 {
        s.append("8");
    } else {
        s.append("9");
    }
    proof {
        assert(s@ =~= old(s)@ + seq![digit_char(d as int)]);
    }
}

fn append_byte_decimal(s: &mut String, v: u8)
    ensures
        final(s)@ == old(s)@ + dec_digits(v as int),
{
    if v >= 100 {
        append_digit(s, v / 100);
        append_digit(s, (v / 10) % 10);
        append_digit(s, v % 10);
    } else if v >= 10 {
        append_digit(s, v / 10);
        append_digit(s, v % 10);
    } else {
        append_digit(s, v);
    }
    proof {
        assert(s@ =~= old(s)@ + dec_digits(v as int));
    }
}

/// The colour as its legacy text line.
pub fn write_colour(pixel_colour: &Colour) -> (r: String)
    ensures
        r@ == spec_colour_line(*pixel_colour),
{
    let rgb = pixel_colour.to_rgb();
    let mut out = String::new();
    append_byte_decimal(&mut out, rgb[0]);
    out.append(" ");
    append_byte_decimal(&mut out, rgb[1]);
    out.append(" ");
    append_byte_decimal(&mut out, rgb[2]);
    out.append("\n");
    proof {
        reveal_strlit(" ");
        reveal_strlit("\n");
        assert(rgb@[0] == to_byte(pixel_colour.x as int));
        assert(rgb@[1] == to_byte(pixel_colour.y as int));
        assert(rgb@[2] == to_byte(pixel_colour.z as int));
        assert(out@ =~= spec_colour_line(*pixel_colour));
    }
    out
}

} // verus!
