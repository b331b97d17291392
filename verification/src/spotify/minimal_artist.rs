//! An artist, as the application shows it.
use vstd::prelude::*;

verus! {

/// An artist: its name.
#[derive(Clone, Debug)]
pub struct MinimalArtist {
    pub name: String,
}

} // verus!
