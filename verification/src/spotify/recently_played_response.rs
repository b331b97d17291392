//! Spotify's answer to the request for the recently played tracks.
use super::{ErrorObject, MinimalTrack};
use vstd::prelude::*;

verus! {

/// The context that a track was played in: its type (album, playlist, ...).
#[derive(Clone, Debug)]
pub struct PlayHistoryContext {
    pub context_type: String,
}

/// A played track and when it was played, as seconds and nanoseconds since
/// the Unix epoch, in UTC.
#[derive(Clone, Debug)]
pub struct PlayHistoryItem {
    pub track: MinimalTrack,
    pub played_at_seconds: i64,
    pub played_at_nanoseconds: u32,
    pub context: Option<PlayHistoryContext>,
}

/// The answer: an error, or the played tracks.
#[derive(Clone, Debug)]
pub struct RecentlyPlayedResponse {
    pub error: Option<ErrorObject>,
    pub items: Option<Vec<PlayHistoryItem>>,
}

} // verus!
