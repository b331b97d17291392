//! The request for a user's recently played tracks.
use super::RetrievableRequest;
use vstd::prelude::*;

verus! {

/// The address of the 50 tracks that a user played last.
pub open spec fn recently_played_uri() -> Seq<char> {
    "https://api.spotify.com/v1/me/player/recently-played?limit=50"@
}

/// The request for the 50 tracks that a user played last.
pub fn make_request() -> (r: RetrievableRequest)
    ensures
        r.uri@ == recently_played_uri(),
{
    let uri = String::from_str("https://api.spotify.com/v1/me/player/recently-played?limit=50");
    RetrievableRequest::new(uri)
}

} // verus!
