//! Wall-clock rendering of timestamps, done by `time`.

use vstd::prelude::*;

verus! {

/// The wall-clock text of a Unix timestamp: date, time of day and the UTC
/// offset, as `time` displays them; `None` where the timestamp lies outside
/// the years that `time` represents.
pub uninterp spec fn timestamp_text(seconds: int) -> Option<Seq<char>>;

/// Calls `time::OffsetDateTime::from_unix_timestamp` and renders the
/// date-time with its `Display`.  Trusted: the result is `None` exactly where
/// the conversion reports that the timestamp is out of range, and is else the
/// text that `timestamp_text` names.
#[verifier::external_body]
pub(crate) fn resolve_timestamp(seconds: i64) -> (r: Option<String>)
    ensures
        r is Some <==> timestamp_text(seconds as int) is Some,
        r is Some ==> r->Some_0@ == timestamp_text(seconds as int)->Some_0,
{
    match time::OffsetDateTime::from_unix_timestamp(seconds) {
        Ok(moment) => Some(moment.to_string()),
        Err(_) => None,
    }
}

} // verus!
