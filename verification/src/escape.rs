use vstd::prelude::*;

verus! {

/// The character for a single decimal digit `d` in `0..=9`.
pub open spec fn digit_char(d: u8) -> char {
    if d == 0 {
        '0'
    } else if d == 1 {
        '1'
    } else if d == 2 {
        '2'
    } else if d == 3 {
        '3'
    } else if d == 4 {
        '4'
    } else if d == 5 {
        '5'
    } else if d == 6 {
        '6'
    } else if d == 7 {
        '7'
    } else if d == 8 {
        '8'
    } else {
        '9'
    }
}

/// The decimal digits of `n`, most significant first, without leading zeros.
pub open spec fn dec_u8(n: u8) -> Seq<char> {
    if n < 10 {
        seq![digit_char(n)]
    } else if n < 100 {
        seq![digit_char(n / 10), digit_char(n % 10)]
    } else {
        seq![digit_char(n / 100), digit_char((n / 10) % 10), digit_char(n % 10)]
    }
}

/// The escape sequence that switches the foreground to the truecolor
/// `(r, g, b)`: `ESC [ 3 8 ; 2 ;` then the three components in decimal,
/// separated by `;` and closed by `m`.
pub open spec fn fg_marker(r: u8, g: u8, b: u8) -> Seq<char> {
    seq!['\u{1b}', '[', '3', '8', ';', '2', ';'] + dec_u8(r) + seq![';'] + dec_u8(g) + seq![';']
        + dec_u8(b) + seq!['m']
}

/// The escape sequence that resets the foreground color: `ESC [ 3 9 m`.
pub open spec fn reset_marker() -> Seq<char> {
    seq!['\u{1b}', '[', '3', '9', 'm']
}

/// Relies on termion's `color::Rgb::fg_string`: it returns the concatenation
/// of "\x1b[38;2;", the three components in decimal, separated by ";", and
/// "m".
#[verifier::external_body]
pub fn fg_escape(r: u8, g: u8, b: u8) -> (s: String)
    ensures
        s@ == fg_marker(r, g, b),
{
    termion::color::Rgb(r, g, b).fg_string()
}

/// Relies on termion's `color::Reset::fg_str`: it returns the fixed sequence
/// "\x1b[39m".
#[verifier::external_body]
pub fn reset_escape() -> (s: String)
    ensures
        s@ == reset_marker(),
{
    String::from(termion::color::Reset.fg_str())
}

} // verus!
