//! The request for a user's top artists or tracks.
use super::RetrievableRequest;
use vstd::prelude::*;

verus! {

/// The address of the top `what_to_get` (artists or tracks) over `timeframe`.
pub open spec fn top_items_uri(what_to_get: Seq<char>, timeframe: Seq<char>) -> Seq<char> {
    "https://api.spotify.com/v1/me/top/"@ + what_to_get + "?limit=50&time_range="@ + timeframe
}

/// The request for the 50 top `what_to_get` (artists or tracks) over
/// `timeframe` (short_term, medium_term or long_term).
pub fn make_request(what_to_get: &str, timeframe: &str) -> (r: RetrievableRequest)
    ensures
        r.uri@ == top_items_uri(what_to_get@, timeframe@),
{
    let mut uri = String::from_str("https://api.spotify.com/v1/me/top/");
    uri.append(what_to_get);
    uri.append("?limit=50&time_range=");
    uri.append(timeframe);
    RetrievableRequest::new(uri)
}

} // verus!
