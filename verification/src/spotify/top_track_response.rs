//! Spotify's answer to a request for top tracks, with full artists.
use super::error_object;
use super::top_artist_response::TopArtist;
use vstd::prelude::*;

verus! {

/// A track and its artists.
#[derive(Debug)]
pub struct TopTrack {
    pub name: String,
    pub artists: Vec<TopArtist>,
}

/// The answer: an error, or the tracks.
#[derive(Debug)]
pub struct TopTrackResponse {
    pub error: Option<error_object::ErrorObject>,
    pub items: Option<Vec<TopTrack>>,
}

} // verus!
