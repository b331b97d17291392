//! The error object of Spotify's web API.
use vstd::prelude::*;

verus! {

/// An error that Spotify's web API reports: the HTTP status and a message.
#[derive(Clone, Debug)]
pub struct ErrorObject {
    pub status: u16,
    pub message: String,
}

} // verus!
