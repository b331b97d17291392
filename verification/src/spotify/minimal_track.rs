//! A track, as the application shows it.
use super::MinimalArtist;
use vstd::prelude::*;

verus! {

/// A track: its name and its artists.
#[derive(Clone, Debug)]
pub struct MinimalTrack {
    pub name: String,
    pub artists: Vec<MinimalArtist>,
}

} // verus!
