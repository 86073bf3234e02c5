//! Raw pulse trains as JSON arrays of integers, through `serde_json`.

use vstd::prelude::*;

use crate::text::decimal;

verus! {

#[verifier::external_type_specification]
#[verifier::external_body]
pub struct ExJsonError(serde_json::Error);

/// The comma-separated decimal items of a JSON integer array.
pub open spec fn json_u32_items(v: Seq<u32>) -> Seq<char>
    decreases v.len(),
{
    if v.len() == 0 {
        Seq::empty()
    } else if v.len() == 1 {
        decimal(v[0] as nat)
    } else {
        json_u32_items(v.drop_last()) + seq![','] + decimal(v.last() as nat)
    }
}

/// Compact JSON text of an integer array: `[1,2,3]`.
pub open spec fn json_u32_array(v: Seq<u32>) -> Seq<char> {
    seq!['['] + json_u32_items(v) + seq![']']
}

/// What `serde_json::from_str::<Vec<u32>>` makes of a text: the array it
/// holds, or `None` when the text is not a JSON array of `u32` values.
pub uninterp spec fn parse_json_u32_array(text: Seq<char>) -> Option<Seq<u32>>;

/// `serde_json::to_string` of a `Vec<u32>`: the compact array text, which
/// `serde_json::from_str` reads back as the same values. Serializing a
/// vector of integers cannot fail; the empty string that would stand for a
/// failure is never produced.
#[verifier::external_body]
pub(crate) fn to_json_u32_array(v: &Vec<u32>) -> (r: String)
    ensures
        r@ == json_u32_array(v@),
        parse_json_u32_array(r@) == Some(v@),
{
    match serde_json::to_string(v) {
        Ok(s) => s,
        Err(_) => String::new(),
    }
}

/// `serde_json::from_str::<Vec<u32>>`: the values of a JSON integer array,
/// or the parser's error.
#[verifier::external_body]
pub(crate) fn from_json_u32_array(text: &str) -> (r: Result<Vec<u32>, serde_json::Error>)
    ensures
        r matches Ok(v) ==> parse_json_u32_array(text@) == Some(v@),
        r is Err ==> parse_json_u32_array(text@) is None,
{
    serde_json::from_str::<Vec<u32>>(text)
}

/// The message of a `serde_json::Error` (its `Display` text); nothing is
/// stated of its content.
#[verifier::external_body]
pub(crate) fn json_error_text(e: &serde_json::Error) -> String {
    e.to_string()
}

} // verus!
