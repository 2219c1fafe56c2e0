use vstd::prelude::*;

verus! {

/// Relies on `String::push`: appends one character at the end.
pub assume_specification[ String::push ](s: &mut String, ch: char)
    ensures
        final(s)@ == old(s)@.push(ch),
;

/// How byte values and offsets are written.
#[derive(Debug, Clone, Copy, PartialEq, Eq, Structural)]
pub enum DisplayMode {
    HexLower,
    HexUpper,
    Octal,
    Decimal,
}

/// The character for digit `d` (below 16); letters in the requested case.
pub open spec fn digit_char(d: nat, upper: bool) -> char {
    if d < 10 {
        (48 + d) as char
    } else if upper {
        (55 + d) as char
    } else {
        (87 + d) as char
    }
}

/// The field that one byte takes in the numeric grid, trailing space included.
pub open spec fn byte_field(mode: DisplayMode, b: u8) -> Seq<char> {
    match mode {
        DisplayMode::HexLower => seq![
            digit_char(b as nat / 16, false),
            digit_char(b as nat % 16, false),
            ' ',
        ],
        DisplayMode::HexUpper => seq![
            digit_char(b as nat / 16, true),
            digit_char(b as nat % 16, true),
            ' ',
        ],
        DisplayMode::Octal => seq![
            digit_char(b as nat / 64, false),
            digit_char((b as nat / 8) % 8, false),
            digit_char(b as nat % 8, false),
            ' ',
        ],
        DisplayMode::Decimal => seq![
            digit_char(b as nat / 100, false),
            digit_char((b as nat / 10) % 10, false),
            digit_char(b as nat % 10, false),
            ' ',
        ],
    }
}

/// The width of one byte's field in the grid.
pub open spec fn field_width(mode: DisplayMode) -> nat {
    match mode {
        DisplayMode::HexLower | DisplayMode::HexUpper => 3,
        DisplayMode::Octal | DisplayMode::Decimal => 4,
    }
}

/// The digits of `n` in `base`, most significant first, padded with leading
/// zeros to at least `width` digits. Zero with no width gives no digits.
pub open spec fn padded_digits(n: nat, base: nat, width: nat, upper: bool) -> Seq<char>
    decreases n, width,
    via padded_digits_decreases
{
    if base < 2 || (n == 0 && width == 0) {
        seq![]
    } else {
        let w: nat = if width > 0 { (width - 1) as nat } else { 0 };
        padded_digits(n / base, base, w, upper).push(digit_char(n % base, upper))
    }
}

#[via_fn]
proof fn padded_digits_decreases(n: nat, base: nat, width: nat, upper: bool) {
    if !(base < 2 || (n == 0 && width == 0)) {
        assert(n / base <= n) by (nonlinear_arith)
            requires base >= 2;
        assert(n > 0 ==> n / base < n) by (nonlinear_arith)
            requires base >= 2;
    }
}

/// The offset column: a zero-padded number followed by a colon.
pub open spec fn offset_prefix(mode: DisplayMode, offset: u64) -> Seq<char> {
    match mode {
        DisplayMode::HexLower => padded_digits(offset as nat, 16, 8, false).push(':'),
        DisplayMode::HexUpper => padded_digits(offset as nat, 16, 8, true).push(':'),
        DisplayMode::Octal => padded_digits(offset as nat, 8, 12, false).push(':'),
        DisplayMode::Decimal => padded_digits(offset as nat, 10, 10, false).push(':'),
    }
}

/// Every byte's field has the same width in a given mode: three characters
/// for hexadecimal, four for octal and decimal.
pub proof fn lemma_byte_field_width(mode: DisplayMode, b: u8)
    ensures
        byte_field(mode, b).len() == field_width(mode),
        mode == DisplayMode::HexLower || mode == DisplayMode::HexUpper ==> byte_field(mode, b).len() == 3,
        mode == DisplayMode::Octal || mode == DisplayMode::Decimal ==> byte_field(mode, b).len() == 4,
{
}

/// A byte's field is a function of the mode and the byte alone: equal
/// inputs give equal fields.
pub proof fn lemma_byte_field_deterministic(m1: DisplayMode, m2: DisplayMode, b1: u8, b2: u8)
    requires
        m1 == m2,
        b1 == b2,
    ensures
        byte_field(m1, b1) == byte_field(m2, b2),
{
}

fn digit_char_exec(d: u8, upper: bool) -> (c: char)
    requires
        d < 16,
    ensures
        c == digit_char(d as nat, upper),
{
    if d < 10 {
        (48 + d) as char
    } else if upper {
        (55 + d) as char
    } else {
        (87 + d) as char
    }
}

/// Appends the field of byte `b` to `out`.
pub fn push_byte_field(out: &mut String, mode: DisplayMode, b: u8)
    ensures
        final(out)@ == old(out)@ + byte_field(mode, b),
{
    let ghost start = out@;
    match mode {
        DisplayMode::HexLower | DisplayMode::HexUpper => {
            let upper = mode == DisplayMode::HexUpper;
            out.push(digit_char_exec(b / 16, upper));
            out.push(digit_char_exec(b % 16, upper));
        },
        DisplayMode::Octal => {
            out.push(digit_char_exec(b / 64, false));
            out.push(digit_char_exec((b / 8) % 8, false));
            out.push(digit_char_exec(b % 8, false));
        },
        DisplayMode::Decimal => {
            out.push(digit_char_exec(b / 100, false));
            out.push(digit_char_exec((b / 10) % 10, false));
            out.push(digit_char_exec(b % 10, false));
        },
    }
    out.push(' ');
    assert(out@ =~= start + byte_field(mode, b));
}

/// The field of byte `b`: its digits in the mode's base, zero-padded to a
/// fixed width, followed by one space.
pub fn format_byte(mode: DisplayMode, b: u8) -> (r: String)
    ensures
        r@ == byte_field(mode, b),
{
    let mut r = String::new();
    push_byte_field(&mut r, mode, b);
    assert(r@ =~= byte_field(mode, b));
    r
}

/// Appends the digits of `n` in `base`, zero-padded to `width` digits.
fn push_padded_digits(out: &mut String, n: u64, base: u64, width: u64, upper: bool)
    requires
        base == 8 || base == 10 || base == 16,
    ensures
        final(out)@ == old(out)@ + padded_digits(n as nat, base as nat, width as nat, upper),
    decreases n, width,
{
    if n == 0 && width == 0 {
        assert(out@ =~= old(out)@ + padded_digits(n as nat, base as nat, width as nat, upper));
        return;
    }
    let w: u64 = if width > 0 { width - 1 } else { 0 };
    push_padded_digits(out, n / base, base, w, upper);
    out.push(digit_char_exec((n % base) as u8, upper));
    assert(out@ =~= old(out)@ + padded_digits(n as nat, base as nat, width as nat, upper));
}

/// Appends the offset column for `offset` to `out`.
pub fn push_offset_prefix(out: &mut String, mode: DisplayMode, offset: u64)
    ensures
        final(out)@ == old(out)@ + offset_prefix(mode, offset),
{
    let ghost start = out@;
    match mode {
        DisplayMode::HexLower => push_padded_digits(out, offset, 16, 8, false),
        DisplayMode::HexUpper => push_padded_digits(out, offset, 16, 8, true),
        DisplayMode::Octal => push_padded_digits(out, offset, 8, 12, false),
        DisplayMode::Decimal => push_padded_digits(out, offset, 10, 10, false),
    }
    out.push(':');
    assert(out@ =~= start + offset_prefix(mode, offset));
}

/// The offset column for `offset`: at least 8 hexadecimal, 12 octal or 10
/// decimal digits, zero-padded, then a colon.
pub fn format_offset(mode: DisplayMode, offset: u64) -> (r: String)
    ensures
        r@ == offset_prefix(mode, offset),
{
    let mut r = String::new();
    push_offset_prefix(&mut r, mode, offset);
    assert(r@ =~= offset_prefix(mode, offset));
    r
}

} // verus!
