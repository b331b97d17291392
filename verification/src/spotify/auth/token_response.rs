//! Spotify's answer to a token request.
use vstd::prelude::*;

verus! {

/// The error that Spotify reports for a failed token request.
pub struct AuthenticationError {
    pub error: String,
    pub error_description: String,
}

/// Spotify's answer to a token request: an error, or the tokens.
pub struct TokenResponse {
    pub error: Option<AuthenticationError>,
    pub access_token: Option<String>,
    pub refresh_token: Option<String>,
    pub token_type: Option<String>,
    pub expires_in: Option<u32>,
    pub scope: Option<String>,
}

impl TokenResponse {
    /// An answer that holds only the given error.
    pub fn new_error(error: String, error_description: String) -> (r: TokenResponse)
        ensures
            r.error matches Some(e) && e.error == error && e.error_description
                == error_description,
            r.access_token is None,
            r.refresh_token is None,
            r.token_type is None,
            r.expires_in is None,
            r.scope is None,
    {
        TokenResponse {
            error: Some(AuthenticationError { error, error_description }),
            access_token: None,
            refresh_token: None,
            token_type: None,
            expires_in: None,
            scope: None,
        }
    }
}

} // verus!
