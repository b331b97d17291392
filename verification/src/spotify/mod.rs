//! The Spotify side: authorization, the requests the application makes,
//! and the shapes of the answers.
pub mod auth;


pub mod top_artist_response;
pub use top_artist_response::TopArtistResponse;

pub mod top_tracks_response;
pub use top_tracks_response::TopTracksResponse;

pub mod top_track_response;

pub mod top_items_request;

pub mod recently_played_response;
pub use recently_played_response::RecentlyPlayedResponse;

pub mod recently_played_request;

pub mod error_object;
pub use error_object::ErrorObject;

pub mod retriever;
pub use retriever::{RetrievableRequest, Retriever};

pub mod top_items_retriever;

pub mod minimal_artist;
pub use minimal_artist::MinimalArtist;

pub mod minimal_track;
pub use minimal_track::MinimalTrack;
