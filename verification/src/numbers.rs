//! Decimal numerals: the page numbers read from pager links and written
//! into page addresses.

use vstd::prelude::*;

verus! {

/// The numeral of a single decimal digit.
pub open spec fn digit_char(d: nat) -> char {
    if d == 0 {
        '0'
    } else if d == 1 {
        '1'
    } else if d == 2 {
        '2'
    } else if d == 3 {
        '3'
    } else if d == 4 {
        '4'
    } else if d == 5 {
        '5'
    } else if d == 6 {
        '6'
    } else if d == 7 {
        '7'
    } else if d == 8 {
        '8'
    } else {
        '9'
    }
}

/// The decimal numeral of `n`, without sign or leading zeros (what
/// `Display` writes for a non-negative integer).
pub open spec fn decimal(n: nat) -> Seq<char>
    decreases n,
{
    if n < 10 {
        seq![digit_char(n)]
    } else {
        decimal(n / 10).push(digit_char(n % 10))
    }
}

/// `c` is an ASCII decimal digit.
pub open spec fn is_digit(c: char) -> bool {
    '0' <= c && c <= '9'
}

/// The value of a string of ASCII digits, most significant first.
pub open spec fn digits_value(s: Seq<char>) -> int
    decreases s.len(),
{
    if s.len() == 0 {
        0
    } else {
        digits_value(s.drop_last()) * 10 + (s.last() as int - '0' as int)
    }
}

/// `s` is a non-empty string of ASCII digits.
pub open spec fn all_digits(s: Seq<char>) -> bool {
    s.len() > 0 && forall|i: int| 0 <= i < s.len() ==> is_digit(#[trigger] s[i])
}

/// The integer that `s` writes as an optional `+` or `-` sign followed by
/// digits only, or `None` when `s` is not of that form.
pub open spec fn int_literal_value(s: Seq<char>) -> Option<int> {
    if s.len() > 0 && s[0] == '-' && all_digits(s.drop_first()) {
        Some(-digits_value(s.drop_first()))
    } else if s.len() > 0 && s[0] == '+' && all_digits(s.drop_first()) {
        Some(digits_value(s.drop_first()))
    } else if all_digits(s) {
        Some(digits_value(s))
    } else {
        None
    }
}

/// `s` is accepted by `i32::from_str`: a literal whose value fits in `i32`.
pub open spec fn is_i32_literal(s: Seq<char>) -> bool {
    int_literal_value(s) matches Some(v) && i32::MIN <= v <= i32::MAX
}

/// The message (`Display` text) of the error that `i32::from_str` gives on `s`.
pub uninterp spec fn i32_parse_error_text(s: Seq<char>) -> Seq<char>;

/// Calls `i32::from_str` and renders its error with `to_string`. As std
/// documents it, the parse succeeds exactly on an optional sign followed by
/// ASCII digits whose value fits in `i32`, and yields that value; the error
/// text is named, not stated.
#[verifier::external_body]
pub fn parse_i32(s: &str) -> (res: Result<i32, String>)
    ensures
        res is Ok <==> is_i32_literal(s@),
        res matches Ok(v) ==> int_literal_value(s@) == Some(v as int),
        res matches Err(m) ==> m@ == i32_parse_error_text(s@),
{
    match <i32 as std::str::FromStr>::from_str(s) {
        Ok(v) => Ok(v),
        Err(e) => Err(e.to_string()),
    }
}

/// The numeral of a digit.
fn digit(d: u32) -> (c: char)
    requires
        d < 10,
    ensures
        c == digit_char(d as nat),
{
    if d == 0 {
        '0'
    } else if d == 1 {
        '1'
    } else if d == 2 {
        '2'
    } else if d == 3 {
        '3'
    } else if d == 4 {
        '4'
    } else if d == 5 {
        '5'
    } else if d == 6 {
        '6'
    } else if d == 7 {
        '7'
    } else if d == 8 {
        '8'
    } else {
        '9'
    }
}

/// Appends the decimal numeral of `n` to `out`.
pub fn push_decimal(n: u32, out: &mut Vec<char>)
    ensures
        final(out)@ == old(out)@ + decimal(n as nat),
    decreases n,
{
    if n < 10 {
        out.push(digit(n));
        assert(decimal(n as nat) == seq![digit_char(n as nat)]);
    } else {
        push_decimal(n / 10, out);
        out.push(digit(n % 10));
        assert(decimal(n as nat) == decimal((n / 10) as nat).push(digit_char((n % 10) as nat)));
    }
}

} // verus!
