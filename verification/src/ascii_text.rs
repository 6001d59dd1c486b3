//! Strings that hold ASCII characters only, as the `ascii` crate has them.

use ascii::AsciiString;
use std::str::FromStr;
use vstd::prelude::*;
use vstd::utf8::is_ascii_chars;

verus! {

/// `ascii::AsciiString`, a growable buffer of ASCII characters.
#[verifier::external_type_specification]
#[verifier::external_body]
pub struct ExAsciiString(ascii::AsciiString);

/// The characters that an ASCII string holds.
pub uninterp spec fn ascii_chars(s: AsciiString) -> Seq<char>;

/// `AsciiString::from_str`: it succeeds exactly on text whose characters are
/// all ASCII, and the string it makes holds those characters.
#[verifier::external_body]
pub(crate) fn ascii_from_str(s: &str) -> (r: Option<AsciiString>)
    ensures
        r is Some <==> is_ascii_chars(s@),
        r matches Some(a) ==> ascii_chars(a) == s@,
{
    AsciiString::from_str(s).ok()
}

/// `AsciiStr::as_str`: the characters of the string as a `str`, which are all
/// ASCII.
#[verifier::external_body]
pub(crate) fn ascii_as_str(s: &AsciiString) -> (r: &str)
    ensures
        r@ == ascii_chars(*s),
        is_ascii_chars(r@),
{
    s.as_str()
}

/// `AsciiString::clone`: a string with the same characters.
#[verifier::external_body]
pub(crate) fn ascii_clone(s: &AsciiString) -> (r: AsciiString)
    ensures
        ascii_chars(r) == ascii_chars(*s),
{
    s.clone()
}

} // verus!
