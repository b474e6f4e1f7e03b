//! Calls into code that is not verified here. Each contract below is taken on
//! trust from the documentation or the source of the function it wraps.

use vstd::prelude::*;
use vstd::utf8::{decode_utf8, valid_utf8};

use crate::loki::decimal;

verus! {

/// `i64::to_string`: the number in decimal digits, with a minus sign in front
/// of a negative one and no sign, padding or separators otherwise.
#[verifier::external_body]
pub(crate) fn decimal_string(number: i64) -> (text: String)
    ensures
        text@ == decimal(number as int),
{
    number.to_string()
}

/// `String::from_utf8`: the text that the bytes encode, where they are valid
/// UTF-8, and nothing where they are not.
#[verifier::external_body]
pub(crate) fn string_from_utf8(bytes: Vec<u8>) -> (text: Option<String>)
    ensures
        text is Some <==> valid_utf8(bytes@),
        text matches Some(decoded) ==> decoded@ == decode_utf8(bytes@),
{
    match String::from_utf8(bytes) {
        Ok(decoded) => Some(decoded),
        Err(_) => None,
    }
}

} // verus!
