//! The decisions of the two pages: the end of the login, and the tops page.
pub mod spotify_login_callback;
pub mod spotify_tops;
