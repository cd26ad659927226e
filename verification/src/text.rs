//! Character and string primitives from the standard library, each behind a
//! small contract, and decimal and binary rendering and decimal parsing of
//! integers, verified against the spec functions that describe them.
use vstd::prelude::*;

verus! {

/// Whether a character outside ASCII has the Unicode `Alphabetic` property
/// (`char::is_alphabetic`).
pub uninterp spec fn unicode_alphabetic(c: char) -> bool;

/// Whether a character outside ASCII is alphabetic or numeric in the Unicode
/// sense (`char::is_alphanumeric`).
pub uninterp spec fn unicode_alphanumeric(c: char) -> bool;

/// Whether a character outside ASCII has a Unicode numeric general category
/// (`char::is_numeric`).
pub uninterp spec fn unicode_numeric(c: char) -> bool;

/// Whether `c` is an ASCII character.
pub open spec fn is_ascii_char(c: char) -> bool {
    (c as u32) < 128
}

/// Whether `c` is alphabetic (`char::is_alphabetic`): among ASCII characters
/// exactly the letters.
pub open spec fn is_alphabetic_char(c: char) -> bool {
    if is_ascii_char(c) {
        'a' <= c <= 'z' || 'A' <= c <= 'Z'
    } else {
        unicode_alphabetic(c)
    }
}

/// Whether `c` is alphabetic or numeric (`char::is_alphanumeric`): among ASCII
/// characters exactly the letters and the digits.
pub open spec fn is_alphanumeric_char(c: char) -> bool {
    if is_ascii_char(c) {
        'a' <= c <= 'z' || 'A' <= c <= 'Z' || '0' <= c <= '9'
    } else {
        unicode_alphanumeric(c)
    }
}

/// Whether `c` is numeric (`char::is_numeric`): among ASCII characters exactly
/// the digits.
pub open spec fn is_numeric_char(c: char) -> bool {
    if is_ascii_char(c) {
        '0' <= c <= '9'
    } else {
        unicode_numeric(c)
    }
}

/// The character at `i`, or `dflt` when `i` is past the end.
pub open spec fn char_or(s: Seq<char>, i: int, dflt: char) -> char {
    if 0 <= i < s.len() {
        s[i]
    } else {
        dflt
    }
}

/// ASCII decimal digit, as `char::is_digit(10)` decides it.
pub open spec fn is_decimal_digit(c: char) -> bool {
    '0' <= c && c <= '9'
}

/// Value of an ASCII digit.
pub open spec fn digit_value(c: char) -> int {
    (c as int) - ('0' as int)
}

/// The number written by a sequence of decimal digits, most significant first.
pub open spec fn digits_value(s: Seq<char>) -> int
    decreases s.len(),
{
    if s.len() == 0 {
        0
    } else {
        digits_value(s.drop_last()) * 10 + digit_value(s.last())
    }
}

/// Decimal parsing of an `i32` as `str::parse::<i32>` documents it: an optional
/// `+` or `-` sign followed by at least one ASCII digit and nothing else, with a
/// value that fits in an `i32`.
pub open spec fn parse_i32_spec(s: Seq<char>) -> Option<i32> {
    let neg = s.len() > 0 && s[0] == '-';
    let digits = unsigned_part(s);
    if digits.len() > 0 && (forall|i: int| 0 <= i < digits.len() ==> is_decimal_digit(#[trigger] digits[i])) {
        let v = if neg {
            -digits_value(digits)
        } else {
            digits_value(digits)
        };
        if i32::MIN <= v <= i32::MAX {
            Some(v as i32)
        } else {
            None
        }
    } else {
        None
    }
}

/// What follows a leading `+` or `-` sign, or the whole text if it has none.
pub open spec fn unsigned_part(s: Seq<char>) -> Seq<char> {
    if s.len() > 0 && (s[0] == '-' || s[0] == '+') {
        s.drop_first()
    } else {
        s
    }
}

/// A text whose unsigned part holds a character other than an ASCII digit is
/// no `i32`.
proof fn lemma_parse_rejects_non_digit(s: Seq<char>, k: int)
    requires
        0 <= k < unsigned_part(s).len(),
        !is_decimal_digit(unsigned_part(s)[k]),
    ensures
        parse_i32_spec(s) == None::<i32>,
{
}

/// Digits of a natural number in base `base` (2 or 10), most significant first,
/// with no leading zeros (zero itself is one digit).
pub open spec fn nat_digits(n: nat, base: nat) -> Seq<char>
    decreases n,
{
    if base < 2 {
        seq![]
    } else if n < base {
        seq![((n + ('0' as nat)) as u32) as char]
    } else {
        proof {
            assert(n / base < n) by (nonlinear_arith)
                requires
                    n >= base,
                    base >= 2,
            ;
        }
        nat_digits(n / base, base).push((((n % base) + ('0' as nat)) as u32) as char)
    }
}

/// How `{}` renders an `i32`.
pub open spec fn i32_decimal(i: i32) -> Seq<char> {
    if i < 0 {
        seq!['-'] + nat_digits((-(i as int)) as nat, 10)
    } else {
        nat_digits(i as nat, 10)
    }
}

/// How `{:b}` renders a `u32`.
pub open spec fn u32_binary(b: u32) -> Seq<char> {
    nat_digits(b as nat, 2)
}

/// `String::push`: appends one character.
#[verifier::external_body]
pub(crate) fn string_push(s: &mut String, c: char)
    ensures
        final(s)@ == old(s)@.push(c),
{
    s.push(c);
}

/// `char::to_string`: the one-character string.
#[verifier::external_body]
pub(crate) fn char_to_string(c: char) -> (res: String)
    ensures
        res@ == seq![c],
{
    c.to_string()
}

/// `str::to_string` on a literal: the same characters, owned.
pub fn owned(s: &str) -> (res: String)
    ensures
        res@ == s@,
{
    broadcast use vstd::string::group_string_axioms;
    s.to_string()
}

/// `char::is_alphabetic`. Among ASCII characters exactly the letters are
/// alphabetic (the Unicode `Alphabetic` property has no other ASCII member).
#[verifier::external_body]
pub(crate) fn char_is_alphabetic(c: char) -> (res: bool)
    ensures
        res == is_alphabetic_char(c),
        !is_ascii_char(c) ==> res == unicode_alphabetic(c),
{
    c.is_alphabetic()
}

/// `char::is_alphanumeric`. Among ASCII characters exactly the letters and
/// the digits are alphanumeric.
#[verifier::external_body]
pub(crate) fn char_is_alphanumeric(c: char) -> (res: bool)
    ensures
        res == is_alphanumeric_char(c),
        !is_ascii_char(c) ==> res == unicode_alphanumeric(c),
{
    c.is_alphanumeric()
}

/// `char::is_numeric`. Among ASCII characters exactly the digits are numeric
/// (the Unicode numeric categories have no other ASCII member).
#[verifier::external_body]
pub(crate) fn char_is_numeric(c: char) -> (res: bool)
    ensures
        res == is_numeric_char(c),
        !is_ascii_char(c) ==> res == unicode_numeric(c),
{
    c.is_numeric()
}

/// A prefix of a string of digits is worth no more than the whole string, and
/// nothing is worth less than zero.
proof fn lemma_digits_value_prefix(t: Seq<char>, j: int)
    requires
        0 <= j <= t.len(),
        forall|i: int| 0 <= i < t.len() ==> is_decimal_digit(#[trigger] t[i]),
    ensures
        0 <= digits_value(t.take(j)) <= digits_value(t),
    decreases t.len(),
{
    if j < t.len() {
        let u = t.drop_last();
        assert(t.take(j) == u.take(j));
        lemma_digits_value_prefix(u, j);
        assert(is_decimal_digit(t[t.len() - 1]));
    } else {
        assert(t.take(j) == t);
        if t.len() > 0 {
            lemma_digits_value_prefix(t.drop_last(), t.len() - 1);
            assert(t.drop_last().take(t.len() - 1) == t.drop_last());
            assert(is_decimal_digit(t[t.len() - 1]));
        }
    }
}

/// Reads an `i32` written in decimal, as `str::parse::<i32>` accepts it: an
/// optional sign, then at least one ASCII digit and nothing else, with a value
/// in range.
pub(crate) fn parse_i32(s: &str) -> (res: Option<i32>)
    ensures
        res == parse_i32_spec(s@),
{
    let chars = chars_of(s);
    let n = chars.len();
    let neg = n > 0 && chars[0] == '-';
    let signed = n > 0 && (chars[0] == '-' || chars[0] == '+');
    let start: usize = if signed { 1 } else { 0 };
    let ghost digits = unsigned_part(s@);
    assert(signed == (s@.len() > 0 && (s@[0] == '-' || s@[0] == '+')));
    assert(neg == (s@.len() > 0 && s@[0] == '-'));
    assert(digits == s@.subrange(start as int, n as int));
    if start == n {
        return None;
    }
    let mut acc: i64 = 0;
    let mut j: usize = start;
    assert(s@.subrange(start as int, start as int) == Seq::<char>::empty());
    while j < n
        invariant
            chars@ == s@,
            n == chars.len(),
            start <= j <= n,
            digits == s@.subrange(start as int, n as int),
            digits == unsigned_part(s@),
            forall|i: int| start <= i < j ==> is_decimal_digit(#[trigger] s@[i]),
            acc == digits_value(s@.subrange(start as int, j as int)),
            0 <= acc <= 2147483648,
        decreases n - j,
    {
        let c = chars[j];
        if !('0' <= c && c <= '9') {
            assert(c == digits[j - start]);
            assert(!is_decimal_digit(digits[j - start]));
            proof {
                lemma_parse_rejects_non_digit(s@, j - start);
            }
            return None;
        }
        assert(c == s@[j as int]);
        assert(is_decimal_digit(s@[j as int]));
        assert(48 <= (c as int) <= 57);
        let d: i64 = ((c as u32) - 48) as i64;
        assert(d == digit_value(c));
        assert(s@.subrange(start as int, j + 1).drop_last() == s@.subrange(start as int, j as int));
        assert(s@.subrange(start as int, j + 1).last() == c);
        acc = acc * 10 + d;
        if acc > 2147483648 {
            proof {
                if forall|i: int| 0 <= i < digits.len() ==> is_decimal_digit(#[trigger] digits[i]) {
                    lemma_digits_value_prefix(digits, j + 1 - start);
                    assert(digits.take(j + 1 - start) == s@.subrange(start as int, j + 1));
                    assert(digits_value(digits) > 2147483648);
                }
                assert(parse_i32_spec(s@) == None::<i32>);
            }
            return None;
        }
        j += 1;
    }
    assert(forall|i: int| 0 <= i < digits.len() ==> is_decimal_digit(#[trigger] digits[i])) by {
        assert forall|i: int| 0 <= i < digits.len() implies is_decimal_digit(#[trigger] digits[i]) by {
            assert(digits[i] == s@[start + i]);
        }
    }
    let v: i64 = if neg { -acc } else { acc };
    if v < -2147483648 || v > 2147483647 {
        None
    } else {
        Some(v as i32)
    }
}

/// The ASCII digit of a value below ten.
fn digit_char(d: u64) -> (c: char)
    requires
        d < 10,
    ensures
        c == ((d + ('0' as nat)) as u32) as char,
{
    let b: u8 = 48u8 + (d as u8);
    b as char
}

/// Appends the digits of `n` in base `base`, most significant first.
fn push_nat_digits(s: &mut String, n: u64, base: u64)
    requires
        base == 2 || base == 10,
    ensures
        final(s)@ == old(s)@ + nat_digits(n as nat, base as nat),
    decreases n,
{
    if n < base {
        let c = digit_char(n);
        string_push(s, c);
        assert(nat_digits(n as nat, base as nat) == seq![c]);
    } else {
        push_nat_digits(s, n / base, base);
        let c = digit_char(n % base);
        string_push(s, c);
    }
}

/// The decimal rendering of an `i32`, as `to_string` gives it.
pub(crate) fn i32_to_string(i: i32) -> (res: String)
    ensures
        res@ == i32_decimal(i),
{
    let mut s = String::new();
    if i < 0 {
        string_push(&mut s, '-');
        let m: i64 = -(i as i64);
        push_nat_digits(&mut s, m as u64, 10);
    } else {
        push_nat_digits(&mut s, i as u64, 10);
    }
    s
}

/// The decimal rendering of a `u32`, as `{:?}` and `to_string` give it.
pub(crate) fn u32_to_decimal_string(b: u32) -> (res: String)
    ensures
        res@ == nat_digits(b as nat, 10),
{
    let mut s = String::new();
    push_nat_digits(&mut s, b as u64, 10);
    s
}

/// The binary rendering of a `u32`, as `format!("{:b}", b)` gives it.
pub(crate) fn u32_to_binary_string(b: u32) -> (res: String)
    ensures
        res@ == u32_binary(b),
{
    let mut s = String::new();
    push_nat_digits(&mut s, b as u64, 2);
    s
}

/// The characters of a string, in order.
pub fn chars_of(s: &str) -> (res: Vec<char>)
    ensures
        res@ == s@,
{
    broadcast use vstd::string::group_string_axioms;
    let mut res: Vec<char> = Vec::new();
    for c in it: s.chars()
        invariant
            res@ == it.seq().take(it.index() as int),
            it.seq() == s@,
    {
        res.push(c);
    }
    res
}

/// Whether a string is the given text.
pub fn text_is(s: &String, text: &str) -> (res: bool)
    ensures
        res == (s@ == text@),
{
    *s == owned(text)
}

/// Appends all of `t` to `s`.
pub fn push_all(s: &mut String, t: &str)
    ensures
        final(s)@ == old(s)@ + t@,
{
    s.append(t);
}

} // verus!

verus! {

/// The decimal digits of a `usize`, as `to_string` gives them.
pub(crate) fn usize_to_string(n: usize) -> (res: String)
    ensures
        res@ == nat_digits(n as nat, 10),
{
    let mut s = String::new();
    push_nat_digits(&mut s, n as u64, 10);
    s
}

} // verus!
