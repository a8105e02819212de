//! Character-level text building: decimal and hexadecimal numerals,
//! and small helpers for assembling `String`s.

use vstd::prelude::*;

verus! {

/// Appends one character to a `String` (`String::push`): the view of the
/// string gains that character at its end and is otherwise unchanged.
#[verifier::external_body]
pub(crate) fn push_char(s: &mut String, c: char)
    ensures
        final(s)@ == old(s)@.push(c),
{
    s.push(c);
}

/// The lower-case character for a hexadecimal digit value `d < 16`.
pub open spec fn hex_digit(d: nat) -> char {
    if d == 0 { '0' } else if d == 1 { '1' } else if d == 2 { '2' } else if d == 3 { '3' }
    else if d == 4 { '4' } else if d == 5 { '5' } else if d == 6 { '6' } else if d == 7 { '7' }
    else if d == 8 { '8' } else if d == 9 { '9' } else if d == 10 { 'a' } else if d == 11 { 'b' }
    else if d == 12 { 'c' } else if d == 13 { 'd' } else if d == 14 { 'e' } else { 'f' }
}

/// The decimal numeral of `n`, without leading zeros.
pub open spec fn decimal(n: nat) -> Seq<char>
    decreases n,
{
    if n < 10 {
        seq![hex_digit(n)]
    } else {
        decimal(n / 10).push(hex_digit(n % 10))
    }
}

/// The decimal numeral of an integer, with a leading `-` when it is negative.
pub open spec fn signed_decimal(i: int) -> Seq<char> {
    if i < 0 {
        seq!['-'] + decimal((-i) as nat)
    } else {
        decimal(i as nat)
    }
}

/// The lower-case hexadecimal numeral of `n`, without leading zeros.
pub open spec fn hexadecimal(n: nat) -> Seq<char>
    decreases n,
{
    if n < 16 {
        seq![hex_digit(n)]
    } else {
        hexadecimal(n / 16).push(hex_digit(n % 16))
    }
}

/// The lower-case hexadecimal numeral of `n` padded with zeros to at least two digits.
pub open spec fn hex_padded2(n: nat) -> Seq<char> {
    if n < 16 {
        seq!['0', hex_digit(n)]
    } else {
        hexadecimal(n)
    }
}

pub(crate) fn digit_char(d: u64) -> (c: char)
    requires
        d < 16,
    ensures
        c == hex_digit(d as nat),
{
    if d == 0 { '0' } else if d == 1 { '1' } else if d == 2 { '2' } else if d == 3 { '3' }
    else if d == 4 { '4' } else if d == 5 { '5' } else if d == 6 { '6' } else if d == 7 { '7' }
    else if d == 8 { '8' } else if d == 9 { '9' } else if d == 10 { 'a' } else if d == 11 { 'b' }
    else if d == 12 { 'c' } else if d == 13 { 'd' } else if d == 14 { 'e' } else { 'f' }
}

/// Appends the decimal numeral of `n`.
pub fn append_decimal(s: &mut String, n: u64)
    ensures
        final(s)@ == old(s)@ + decimal(n as nat),
    decreases n,
{
    if n >= 10 {
        append_decimal(s, n / 10);
    }
    push_char(s, digit_char(n % 10));
    proof {
        assert(decimal(n as nat) == if n < 10 { seq![hex_digit(n as nat)] } else {
            decimal((n / 10) as nat).push(hex_digit((n % 10) as nat))
        });
    }
}

/// Appends the lower-case hexadecimal numeral of `n`.
pub fn append_hexadecimal(s: &mut String, n: u64)
    ensures
        final(s)@ == old(s)@ + hexadecimal(n as nat),
    decreases n,
{
    if n >= 16 {
        append_hexadecimal(s, n / 16);
    }
    push_char(s, digit_char(n % 16));
}

/// Appends the decimal numeral of a signed integer.
pub fn append_signed_decimal(s: &mut String, i: i64)
    ensures
        final(s)@ == old(s)@ + signed_decimal(i as int),
{
    if i < 0 {
        push_char(s, '-');
        let m: u64 = if i == i64::MIN { 9223372036854775808u64 } else { (-i) as u64 };
        append_decimal(s, m);
        assert(old(s)@.push('-') + decimal(m as nat) == old(s)@ + (seq!['-'] + decimal(m as nat)));
    } else {
        append_decimal(s, i as u64);
    }
}

/// Appends a hexadecimal numeral padded to two digits, as `{:02x}` does.
pub fn append_hex_padded2(s: &mut String, n: u64)
    ensures
        final(s)@ == old(s)@ + hex_padded2(n as nat),
{
    if n < 16 {
        push_char(s, '0');
        push_char(s, digit_char(n));
        assert(old(s)@.push('0').push(hex_digit(n as nat)) == old(s)@ + seq!['0', hex_digit(n as nat)]);
    } else {
        append_hexadecimal(s, n);
    }
}

/// The decimal numeral of an unsigned number as a new `String`.
pub fn decimal_string(n: u64) -> (s: String)
    ensures
        s@ == decimal(n as nat),
{
    let mut s = String::new();
    append_decimal(&mut s, n);
    assert(Seq::<char>::empty() + decimal(n as nat) == decimal(n as nat));
    s
}

/// The decimal numeral of a signed number as a new `String`.
pub fn signed_decimal_string(i: i64) -> (s: String)
    ensures
        s@ == signed_decimal(i as int),
{
    let mut s = String::new();
    append_signed_decimal(&mut s, i);
    assert(Seq::<char>::empty() + signed_decimal(i as int) == signed_decimal(i as int));
    s
}

/// Appends a string slice.
pub fn append_str(s: &mut String, t: &str)
    ensures
        final(s)@ == old(s)@ + t@,
{
    s.append(t);
}

/// The text that `{:?}` gives for a string: quoted, with special characters escaped.
pub uninterp spec fn debug_text(s: Seq<char>) -> Seq<char>;

/// The `Debug` rendering of a string (`<str as Debug>::fmt`, through `format!("{:?}", s)`),
/// which depends on the text alone.
#[verifier::external_body]
pub(crate) fn debug_str(s: &str) -> (r: String)
    ensures
        r@ == debug_text(s@),
{
    format!("{:?}", s)
}

} // verus!
