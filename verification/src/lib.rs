//! A web front end for a listener's Spotify top artists and tracks: the
//! bounded token store, the request throttle, the query and URL encoders and
//! the request plans, each with its contract.
use vstd::prelude::*;

pub mod app;
pub mod config;
pub mod encoding;
pub mod mru_hashmap;
pub mod routes;
pub mod server;
pub mod spotify;
pub mod spotify_future;
pub mod throttling_future;

verus! {

} // verus!
