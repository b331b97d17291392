//! Spotify's answer to the request for a user's top tracks.
use super::error_object;
use super::MinimalTrack;
use vstd::prelude::*;

verus! {

/// The answer: an error, or the tracks.
#[derive(Clone, Debug)]
pub struct TopTracksResponse {
    pub error: Option<error_object::ErrorObject>,
    pub items: Option<Vec<MinimalTrack>>,
}

} // verus!
