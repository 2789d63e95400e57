//! Text helpers: appending characters to a `String`, and decimal and hexadecimal numerals.
use vstd::prelude::*;

verus! {

/// `String::push`: appends one character.
#[verifier::external_body]
pub(crate) fn push_char(s: &mut String, c: char)
    ensures
        final(s)@ == old(s)@.push(c),
{
    s.push(c);
}

/// The ASCII digit for `d` (`d < 10`).
pub open spec fn digit_char(d: nat) -> char {
    ((d + 48) as u8) as char
}

/// Decimal digits of `n`, most significant first, without leading zeros ("0" for zero).
pub open spec fn decimal_digits(n: nat) -> Seq<char>
    decreases n,
{
    if n < 10 {
        seq![digit_char(n)]
    } else {
        decimal_digits(n / 10).push(digit_char(n % 10))
    }
}

/// The decimal numeral of `v`, with a leading `-` when negative.
pub open spec fn decimal_text(v: int) -> Seq<char> {
    if v < 0 {
        seq!['-'] + decimal_digits((-v) as nat)
    } else {
        decimal_digits(v as nat)
    }
}

fn digit(d: u64) -> (c: char)
    requires
        d < 10,
    ensures
        c == digit_char(d as nat),
{
    ((d + 48) as u8) as char
}

/// Append the decimal digits of `n` to `s`.
fn push_decimal_digits(s: &mut String, n: u64)
    ensures
        final(s)@ == old(s)@ + decimal_digits(n as nat),
    decreases n,
{
    if n < 10 {
        push_char(s, digit(n));
        assert(old(s)@.push(digit_char(n as nat)) =~= old(s)@ + decimal_digits(n as nat));
    } else {
        push_decimal_digits(s, n / 10);
        push_char(s, digit(n % 10));
        assert(old(s)@ + decimal_digits((n / 10) as nat) + seq![digit_char((n % 10) as nat)]
            =~= old(s)@ + decimal_digits(n as nat));
    }
}

/// The decimal text of `v`, as `i64::to_string` writes it.
pub fn i64_to_decimal(v: i64) -> (s: String)
    ensures
        s@ == decimal_text(v as int),
{
    let mut s = String::new();
    if v < 0 {
        push_char(&mut s, '-');
        let magnitude: u64 = if v == i64::MIN { 0x8000_0000_0000_0000u64 } else { (-v) as u64 };
        push_decimal_digits(&mut s, magnitude);
    } else {
        push_decimal_digits(&mut s, v as u64);
    }
    s
}

/// The lower-case hexadecimal digit for `d` (`d < 16`).
pub open spec fn hex_digit_char(d: nat) -> char {
    if d < 10 {
        ((d + 48) as u8) as char
    } else {
        ((d + 87) as u8) as char
    }
}

/// Lower-case hexadecimal digits of `n`, most significant first, without leading zeros.
pub open spec fn hex_digits(n: nat) -> Seq<char>
    decreases n,
{
    if n < 16 {
        seq![hex_digit_char(n)]
    } else {
        hex_digits(n / 16).push(hex_digit_char(n % 16))
    }
}

/// `s` preceded by as many `0` as it takes to reach `width` characters.
pub open spec fn zero_padded(s: Seq<char>, width: nat) -> Seq<char> {
    if s.len() < width {
        Seq::new((width - s.len()) as nat, |i: int| '0') + s
    } else {
        s
    }
}

fn hex_digit(d: u64) -> (c: char)
    requires
        d < 16,
    ensures
        c == hex_digit_char(d as nat),
{
    if d < 10 {
        ((d + 48) as u8) as char
    } else {
        ((d + 87) as u8) as char
    }
}

/// Append the hexadecimal digits of `n` to `s`.
fn push_hex_digits(s: &mut String, n: u64)
    ensures
        final(s)@ == old(s)@ + hex_digits(n as nat),
    decreases n,
{
    if n < 16 {
        push_char(s, hex_digit(n));
        assert(old(s)@.push(hex_digit_char(n as nat)) =~= old(s)@ + hex_digits(n as nat));
    } else {
        push_hex_digits(s, n / 16);
        push_char(s, hex_digit(n % 16));
        assert(old(s)@ + hex_digits((n / 16) as nat) + seq![hex_digit_char((n % 16) as nat)]
            =~= old(s)@ + hex_digits(n as nat));
    }
}

/// Append the hexadecimal numeral of `v` to `s`, padded with zeros to `width` digits, as
/// the format `{:0width$x}` writes it.
pub fn push_hex_padded(s: &mut String, v: u64, width: usize)
    ensures
        final(s)@ == old(s)@ + zero_padded(hex_digits(v as nat), width as nat),
{
    let mut digits = String::new();
    push_hex_digits(&mut digits, v);
    assert(digits@ =~= hex_digits(v as nat));
    let len = digits.as_str().unicode_len();
    let mut k: usize = len;
    let ghost s0 = s@;
    while k < width
        invariant
            len == digits@.len(),
            len <= k <= width || (k == len && width <= len),
            s@ == s0 + Seq::new((k - len) as nat, |i: int| '0'),
        decreases width - k,
    {
        push_char(s, '0');
        assert(s@ =~= s0 + Seq::new((k + 1 - len) as nat, |i: int| '0'));
        k = k + 1;
    }
    s.append(digits.as_str());
    if len < width {
        assert(s@ =~= s0 + zero_padded(hex_digits(v as nat), width as nat));
    } else {
        assert(s@ =~= s0 + zero_padded(hex_digits(v as nat), width as nat));
    }
}

} // verus!
