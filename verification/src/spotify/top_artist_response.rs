//! Spotify's answer to the request for a user's top artists.
use super::error_object;
use super::MinimalArtist;
use vstd::prelude::*;

verus! {

/// An artist in a list of top tracks: its name.
#[derive(Clone, Debug)]
pub struct TopArtist {
    pub name: String,
}

/// The answer: an error, or the artists.
#[derive(Clone, Debug)]
pub struct TopArtistResponse {
    pub error: Option<error_object::ErrorObject>,
    pub items: Option<Vec<MinimalArtist>>,
}

} // verus!
