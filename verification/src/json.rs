//! Decoding of row batches, done by `serde_json`.

use crate::text::texts;
use vstd::prelude::*;

verus! {

#[verifier::external_type_specification]
#[verifier::external_body]
pub struct ExJsonError(serde_json::Error);

/// The rows that a row batch decodes to: `None` where the text is not a JSON
/// array, else the compact JSON text of each element, in order.
pub uninterp spec fn json_rows(text: Seq<char>) -> Option<Seq<Seq<char>>>;

/// Calls `serde_json::from_str` to read `text` as an array of
/// `serde_json::Value`, and `Value::to_string` on each element.  Trusted: the
/// call succeeds exactly where `json_rows` is defined, and then returns those
/// rows.
#[verifier::external_body]
pub(crate) fn decode_rows(text: &str) -> (r: Result<Vec<String>, serde_json::Error>)
    ensures
        r is Ok <==> json_rows(text@) is Some,
        r is Ok ==> texts(r->Ok_0@) == json_rows(text@)->Some_0,
{
    let rows: Vec<serde_json::Value> = serde_json::from_str(text)?;
    Ok(rows.iter().map(|row| row.to_string()).collect())
}

} // verus!
