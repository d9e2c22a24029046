//! `leviathan.services`: how a service is named when a plugin registers or
//! asks for one: `name@version`, or a name and a version number.

use vstd::prelude::*;
use crate::text::{chars_of, str_to_string, str_concat, find_char, char_position, string_between, lemma_find_char_bounds};
use crate::clock::{decimal_string, dec_digits};
use crate::naming::is_digit;

verus! {

/// A service a plugin provides or requires.
#[derive(Debug, Clone)]
pub struct ServiceDecl {
    pub name: String,
    pub version: u32,
    pub required: bool,
}

/// Why text is not a `u32` (the kinds `str::parse::<u32>` reports).
#[derive(Debug, Clone, Copy, PartialEq, Eq, Structural)]
pub enum ParseIntErrorKind {
    Empty,
    InvalidDigit,
    PosOverflow,
}

/// The text `str::parse` errors display.
pub open spec fn parse_error_message(k: ParseIntErrorKind) -> Seq<char> {
    match k {
        ParseIntErrorKind::Empty => "cannot parse integer from empty string"@,
        ParseIntErrorKind::InvalidDigit => "invalid digit found in string"@,
        ParseIntErrorKind::PosOverflow => "number too large to fit in target type"@,
    }
}

pub fn parse_error_text(k: ParseIntErrorKind) -> (r: String)
    ensures
        r@ == parse_error_message(k),
{
    match k {
        ParseIntErrorKind::Empty => str_to_string("cannot parse integer from empty string"),
        ParseIntErrorKind::InvalidDigit => str_to_string("invalid digit found in string"),
        ParseIntErrorKind::PosOverflow => str_to_string("number too large to fit in target type"),
    }
}

/// Digits `d` read left to right onto `acc`: the first character that is
/// not a digit, or the first step past `u32::MAX`, is the error.
pub open spec fn digits_from(d: Seq<char>, acc: nat) -> Result<u32, ParseIntErrorKind>
    decreases d.len(),
{
    if d.len() == 0 {
        Ok(acc as u32)
    } else if !is_digit(d[0]) {
        Err(ParseIntErrorKind::InvalidDigit)
    } else {
        let n = acc * 10 + ((d[0] as int) - ('0' as int));
        if n > u32::MAX {
            Err(ParseIntErrorKind::PosOverflow)
        } else {
            digits_from(d.drop_first(), n as nat)
        }
    }
}

/// `str::parse::<u32>` with its error: empty text, a lone sign, a
/// character that is not a digit after an optional `+`, or too large a
/// value.
pub open spec fn u32_parse(s: Seq<char>) -> Result<u32, ParseIntErrorKind> {
    if s.len() == 0 {
        Err(ParseIntErrorKind::Empty)
    } else if s == seq!['+'] || s == seq!['-'] {
        Err(ParseIntErrorKind::InvalidDigit)
    } else if s[0] == '+' {
        digits_from(s.drop_first(), 0)
    } else {
        digits_from(s, 0)
    }
}

pub fn parse_u32_text(s: &str) -> (r: Result<u32, ParseIntErrorKind>)
    ensures
        r == u32_parse(s@),
{
    let v = chars_of(s);
    if v.len() == 0 {
        return Err(ParseIntErrorKind::Empty);
    }
    if v.len() == 1 && (v[0] == '+' || v[0] == '-') {
        assert(v@ =~= seq![v@[0]]);
        return Err(ParseIntErrorKind::InvalidDigit);
    }
    proof {
        if v@ == seq!['+'] || v@ == seq!['-'] {
            assert(v@.len() == 1);
        }
    }
    let start: usize = if v[0] == '+' { 1 } else { 0 };
    let ghost d = v@.subrange(start as int, v@.len() as int);
    assert(start == 1 ==> d =~= v@.drop_first());
    assert(start == 0 ==> d =~= v@);
    let mut acc: u64 = 0;
    let mut i: usize = start;
    while i < v.len()
        invariant
            start <= i <= v@.len(),
            v@ == s@,
            u32_parse(s@) == digits_from(d, 0),
            d == v@.subrange(start as int, v@.len() as int),
            acc <= u32::MAX,
            digits_from(d, 0) == digits_from(v@.subrange(i as int, v@.len() as int), acc as nat),
        decreases v@.len() - i,
    {
        let c = v[i];
        let ghost rest = v@.subrange(i as int, v@.len() as int);
        assert(rest[0] == c);
        assert(rest.drop_first() =~= v@.subrange(i + 1, v@.len() as int));
        if !('0' <= c && c <= '9') {
            return Err(ParseIntErrorKind::InvalidDigit);
        }
        let digit: u64 = (c as u64) - ('0' as u64);
        let n: u64 = acc * 10 + digit;
        if n > 4294967295u64 {
            return Err(ParseIntErrorKind::PosOverflow);
        }
        acc = n;
        i += 1;
    }
    assert(v@.subrange(i as int, v@.len() as int).len() == 0);
    Ok(acc as u32)
}

pub open spec fn decl_error_spec(s: Seq<char>) -> Option<Seq<char>> {
    let e = find_char(s, '@');
    if e >= s.len() {
        Some("service must be 'name@version'"@)
    } else {
        match u32_parse(s.subrange(e + 1, s.len() as int)) {
            Ok(_) => None,
            Err(k) => Some(parse_error_message(k)),
        }
    }
}

/// `name@version` (split at the first `@`) as a required service.
pub fn parse_decl(s: &str) -> (r: Result<ServiceDecl, String>)
    ensures
        ({
            let e = find_char(s@, '@');
            if e >= s@.len() {
                r matches Err(x) && x@ == "service must be 'name@version'"@
            } else {
                match u32_parse(s@.subrange(e + 1, s@.len() as int)) {
                    Ok(v) => r matches Ok(d) && d.name@ == s@.subrange(0, e) && d.version == v && d.required,
                    Err(k) => r matches Err(x) && x@ == parse_error_message(k),
                }
            }
        }),
{
    let v = chars_of(s);
    let e = char_position(&v, '@');
    proof {
        lemma_find_char_bounds(v@, '@');
    }
    if e >= v.len() {
        return Err(str_to_string("service must be 'name@version'"));
    }
    let name = string_between(&v, 0, e);
    let version_text = string_between(&v, e + 1, v.len());
    match parse_u32_text(version_text.as_str()) {
        Ok(version) => Ok(ServiceDecl { name, version, required: true }),
        Err(k) => Err(parse_error_text(k)),
    }
}

/// `v` written in decimal, with a `-` when negative.
pub open spec fn i64_text(v: i64) -> Seq<char> {
    if v < 0 {
        "-"@ + dec_digits((-(v as int)) as nat)
    } else {
        dec_digits(v as nat)
    }
}

pub fn i64_decimal(v: i64) -> (r: String)
    ensures
        r@ == i64_text(v),
{
    if v < 0 {
        let mag: u64 = (0i128 - (v as i128)) as u64;
        let digits = decimal_string(mag);
        str_concat("-", digits.as_str())
    } else {
        decimal_string(v as u64)
    }
}

/// A required service `name` of version `version`, which must fit a `u32`.
pub fn decl_from_name_version(name: &str, version: i64) -> (r: Result<ServiceDecl, String>)
    ensures
        if 0 <= version <= u32::MAX {
            r matches Ok(d) && d.name@ == name@ && d.version == version && d.required
        } else {
            r matches Err(x) && x@ == "service version must be a non-negative u32: "@ + i64_text(version)
        },
{
    if 0 <= version && version <= 4294967295i64 {
        Ok(ServiceDecl { name: str_to_string(name), version: version as u32, required: true })
    } else {
        let text = i64_decimal(version);
        Err(str_concat("service version must be a non-negative u32: ", text.as_str()))
    }
}

} // verus!
