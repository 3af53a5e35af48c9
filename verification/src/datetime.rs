use vstd::prelude::*;

verus! {

/// The milliseconds since the Unix epoch an RFC 3339 date-time literal
/// denotes, truncated to millisecond precision, or nothing when the text
/// is not such a literal. The result depends on the text alone.
pub uninterp spec fn rfc3339_millis_of(text: Seq<char>) -> Option<i64>;

/// Relies on the time crate's `OffsetDateTime::parse` with the RFC 3339
/// well-known format, and on `unix_timestamp_nanos`: a deterministic
/// parse whose outcome depends on the text alone.
#[verifier::external_body]
pub(crate) fn parse_rfc3339_millis(text: &str) -> (r: Option<i64>)
    ensures
        r == rfc3339_millis_of(text@),
{
    let format = time::format_description::well_known::Rfc3339;
    match time::OffsetDateTime::parse(text, &format) {
        Ok(parsed) => i64::try_from(parsed.unix_timestamp_nanos() / 1_000_000).ok(),
        Err(_) => None,
    }
}

} // verus!
