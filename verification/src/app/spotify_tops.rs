//! The tops page: which requests it makes, and the headers of its parts.
use crate::spotify::retriever::{bearer, Retriever};
use crate::spotify::top_items_request::{make_request, top_items_uri};
use vstd::prelude::*;

verus! {

/// The time ranges of the top items, shortest first.
pub open spec fn time_ranges() -> Seq<Seq<char>> {
    seq!["short_term"@, "medium_term"@, "long_term"@]
}

/// The headers of the parts of the page, one for each time range.
pub open spec fn time_frame_texts() -> Seq<Seq<char>> {
    seq!["Short Term (4 weeks)"@, "Medium Term (6 months)"@, "Long Term (years)"@]
}

/// The requests for the top `what_to_get` (artists or tracks) over each time
/// range, in the order of `time_ranges`, made with the token `auth_code`.
pub fn top_items_retrievers<T>(auth_code: &str, what_to_get: &str) -> (r: Vec<Retriever<T>>)
    ensures
        r@.len() == 3,
        forall|i: int|
            0 <= i < 3 ==> {
                &&& (#[trigger] r@[i]).retrievable_request.uri@ == top_items_uri(
                    what_to_get@,
                    time_ranges()[i],
                )
                &&& r@[i].authorization@ == bearer(auth_code@)
            },
{
    let mut r: Vec<Retriever<T>> = Vec::new();
    r.push(Retriever::new(auth_code, make_request(what_to_get, "short_term")));
    r.push(Retriever::new(auth_code, make_request(what_to_get, "medium_term")));
    r.push(Retriever::new(auth_code, make_request(what_to_get, "long_term")));
    r
}

/// The headers of the parts of the page, one for each time range.
pub fn time_frame_headers() -> (r: Vec<String>)
    ensures
        r@.len() == 3,
        forall|i: int| 0 <= i < 3 ==> (#[trigger] r@[i])@ == time_frame_texts()[i],
{
    let mut r: Vec<String> = Vec::new();
    r.push(String::from_str("Short Term (4 weeks)"));
    r.push(String::from_str("Medium Term (6 months)"));
    r.push(String::from_str("Long Term (years)"));
    r
}

/// The header of the recently played tracks.
pub fn recently_played_header() -> (r: String)
    ensures
        r@ == "Last 50 Tracks Played"@,
{
    String::from_str("Last 50 Tracks Played")
}

} // verus!
