//! Reading small pieces of text: prefixes, decimal numbers, dotted fields.
use vstd::prelude::*;

verus! {

/// `p` begins `s`.
pub open spec fn is_prefix(p: Seq<char>, s: Seq<char>) -> bool {
    p.len() <= s.len() && s.take(p.len() as int) == p
}

/// Relies on `str::strip_prefix`: what follows `p` in `s`, where `s` begins
/// with `p`.
#[verifier::external_body]
pub fn after_prefix<'a>(s: &'a str, p: &str) -> (r: Option<&'a str>)
    ensures
        r is Some <==> is_prefix(p@, s@),
        r matches Some(rest) ==> rest@ == s@.skip(p@.len() as int),
{
    s.strip_prefix(p)
}

/// Whether `s` is exactly `lit`.
pub fn str_equals(s: &str, lit: &str) -> (r: bool)
    ensures
        r == (s@ == lit@),
{
    match after_prefix(s, lit) {
        Some(rest) => {
            let empty = rest.is_empty();
            proof {
                if empty {
                    assert(s@ =~= lit@);
                }
                if s@ == lit@ {
                    assert(s@.skip(lit@.len() as int) =~= Seq::<char>::empty());
                }
            }
            empty
        },
        None => {
            proof {
                if s@ == lit@ {
                    assert(s@.take(lit@.len() as int) =~= lit@);
                }
            }
            false
        },
    }
}

pub open spec fn all_digits(s: Seq<char>) -> bool {
    forall|i: int| 0 <= i < s.len() ==> '0' <= #[trigger] s[i] <= '9'
}

/// The number that the decimal digits `s` spell.
pub open spec fn digits_value(s: Seq<char>) -> nat
    decreases s.len(),
{
    if s.len() == 0 {
        0
    } else {
        digits_value(s.drop_last()) * 10 + (s.last() as int - '0' as int) as nat
    }
}

/// The number that `s` spells as an optional `+` followed by one or more
/// decimal digits, and nothing else.
pub open spec fn unsigned_literal(s: Seq<char>) -> Option<nat> {
    let d = if s.len() > 0 && s[0] == '+' {
        s.drop_first()
    } else {
        s
    };
    if d.len() > 0 && all_digits(d) {
        Some(digits_value(d))
    } else {
        None
    }
}

pub open spec fn parsed_u16(s: Seq<char>) -> Option<u16> {
    match unsigned_literal(s) {
        Some(n) => if n <= u16::MAX {
            Some(n as u16)
        } else {
            None
        },
        None => None,
    }
}

pub open spec fn parsed_u8(s: Seq<char>) -> Option<u8> {
    match unsigned_literal(s) {
        Some(n) => if n <= u8::MAX {
            Some(n as u8)
        } else {
            None
        },
        None => None,
    }
}

/// Relies on `u16`'s `FromStr`: an optional `+` and decimal digits, in range.
#[verifier::external_body]
pub fn parse_u16(s: &str) -> (r: Option<u16>)
    ensures
        r == parsed_u16(s@),
{
    s.parse::<u16>().ok()
}

/// Relies on `u8`'s `FromStr`: an optional `+` and decimal digits, in range.
#[verifier::external_body]
pub fn parse_u8(s: &str) -> (r: Option<u8>)
    ensures
        r == parsed_u8(s@),
{
    s.parse::<u8>().ok()
}

/// The pieces of `s` between occurrences of `sep`, from the first to the
/// last; `s` without `sep` is one piece.
pub open spec fn pieces(s: Seq<char>, sep: char) -> Seq<Seq<char>>
    decreases s.len(),
{
    if s.len() == 0 {
        seq![Seq::empty()]
    } else {
        let p = pieces(s.drop_last(), sep);
        if s.last() == sep {
            p.push(Seq::empty())
        } else {
            p.update(p.len() - 1, p.last().push(s.last()))
        }
    }
}

pub open spec fn string_views(v: Seq<String>) -> Seq<Seq<char>> {
    v.map_values(|s: String| s@)
}

/// Relies on `str::split` with a `char` pattern: the pieces between the
/// separators, each made an owned string.
#[verifier::external_body]
pub fn split_on(s: &str, sep: char) -> (r: Vec<String>)
    ensures
        string_views(r@) == pieces(s@, sep),
{
    s.split(sep).map(|piece| piece.to_string()).collect()
}

/// The position of the first `c` in `s`; the length of `s` where there is none.
pub open spec fn first_index(s: Seq<char>, c: char) -> int
    decreases s.len(),
{
    if s.len() == 0 {
        0
    } else if s[0] == c {
        0
    } else {
        1 + first_index(s.drop_first(), c)
    }
}

/// Relies on `str::split_once` with a `char` pattern: what stands before and
/// after the first `c`, where there is one.
#[verifier::external_body]
pub fn split_once_char<'a>(s: &'a str, c: char) -> (r: Option<(&'a str, &'a str)>)
    ensures
        r is Some <==> first_index(s@, c) < s@.len(),
        r matches Some(parts) ==> parts.0@ == s@.take(first_index(s@, c)) && parts.1@ == s@.skip(
            first_index(s@, c) + 1,
        ),
{
    s.split_once(c)
}

/// `p` ends `s`.
pub open spec fn is_suffix(p: Seq<char>, s: Seq<char>) -> bool {
    p.len() <= s.len() && s.skip(s.len() - p.len()) == p
}

/// Relies on `str::strip_suffix`: what precedes `p` in `s`, where `s` ends
/// with `p`.
#[verifier::external_body]
pub fn before_suffix<'a>(s: &'a str, p: &str) -> (r: Option<&'a str>)
    ensures
        r is Some <==> is_suffix(p@, s@),
        r matches Some(rest) ==> rest@ == s@.take(s@.len() - p@.len()),
{
    s.strip_suffix(p)
}

pub open spec fn parsed_u32(s: Seq<char>) -> Option<u32> {
    match unsigned_literal(s) {
        Some(n) => if n <= u32::MAX {
            Some(n as u32)
        } else {
            None
        },
        None => None,
    }
}

/// Relies on `u32`'s `FromStr`: an optional `+` and decimal digits, in range.
#[verifier::external_body]
pub fn parse_u32(s: &str) -> (r: Option<u32>)
    ensures
        r == parsed_u32(s@),
{
    s.parse::<u32>().ok()
}

/// The boolean that `s` spells, if any.
pub open spec fn bool_literal(s: Seq<char>) -> Option<bool> {
    if s == seq!['t', 'r', 'u', 'e'] {
        Some(true)
    } else if s == seq!['f', 'a', 'l', 's', 'e'] {
        Some(false)
    } else {
        None
    }
}

/// Relies on `bool`'s `FromStr`: exactly "true" and "false" parse.
#[verifier::external_body]
pub fn parse_bool(s: &str) -> (r: Option<bool>)
    ensures
        r == bool_literal(s@),
{
    s.parse::<bool>().ok()
}

} // verus!
