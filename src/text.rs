//! Text primitives the store relies on: ASCII case folding for alias names,
//! and the check that a zone name belongs to the time zone database.

use vstd::prelude::*;

verus! {

/// A character with ASCII upper-case letters mapped to lower case; every
/// other character is left as it is.
pub open spec fn ascii_lower_char(c: char) -> char {
    if 'A' <= c && c <= 'Z' {
        ((c as u32) + 32) as char
    } else {
        c
    }
}

/// A text with ASCII upper-case letters mapped to lower case.
pub open spec fn ascii_lower(s: Seq<char>) -> Seq<char> {
    s.map_values(|c: char| ascii_lower_char(c))
}

/// Two alias names match when they agree up to ASCII case.
pub open spec fn same_alias(a: Seq<char>, b: Seq<char>) -> bool {
    ascii_lower(a) == ascii_lower(b)
}

/// Whether a text is the exact name of a zone or link of the time zone
/// database compiled into chrono-tz.
pub uninterp spec fn tz_known(name: Seq<char>) -> bool;

#[verifier::external_type_specification]
#[verifier::external_body]
pub struct ExTz(chrono_tz::Tz);

/// Relies on `str::eq_ignore_ascii_case`: equal after mapping ASCII letters
/// to lower case, other characters compared as they are.
#[verifier::external_body]
pub(crate) fn eq_ignore_ascii_case(a: &String, b: &String) -> (r: bool)
    ensures
        r == same_alias(a@, b@),
{
    a.as_str().eq_ignore_ascii_case(b.as_str())
}

/// Relies on `<chrono_tz::Tz as FromStr>::from_str`: an exact lookup of the
/// text in the table of zone and link names built into the crate.
#[verifier::external_body]
pub(crate) fn parse_tz(name: &String) -> (r: Option<chrono_tz::Tz>)
    ensures
        r is Some <==> tz_known(name@),
{
    name.parse::<chrono_tz::Tz>().ok()
}

} // verus!
