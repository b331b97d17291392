//! The end of the login: the code that Spotify hands back, the token to
//! keep, and where the user goes next.
use crate::server::helpers::{entries_map, keys_distinct, opt_text, query_lookup};
use crate::spotify::auth::token_response::TokenResponse;
use vstd::prelude::*;

verus! {

/// The authorization code in the query of the callback: the value of
/// `code`, if it is there with a value.
pub open spec fn code_of(query: Map<Seq<char>, Option<Seq<char>>>) -> Option<Seq<char>> {
    if query.contains_key("code"@) {
        query["code"@]
    } else {
        None
    }
}

/// The authorization code in the query of the callback.
pub fn authorization_code(query: &Vec<(String, Option<String>)>) -> (r: Option<String>)
    requires
        keys_distinct(query@),
    ensures
        opt_text(r) == code_of(entries_map(query@)),
{
    match query_lookup(query, "code") {
        Some(value) => match value {
            Some(code) => Some(code.clone()),
            None => None,
        },
        None => None,
    }
}

/// The token to keep from Spotify's answer: none if it reports an error,
/// else its access token. An answer with neither is not handled.
pub fn token_to_store(response: &TokenResponse) -> (r: Option<String>)
    requires
        response.error is Some || response.access_token is Some,
    ensures
        response.error is Some ==> r is None,
        response.error is None ==> r == response.access_token,
{
    if response.error.is_some() {
        return None;
    }
    match &response.access_token {
        Some(token) => Some(token.clone()),
        None => None,
    }
}

/// Where the user goes after logging in: the home page of `host`, with the
/// session `session` in the query.
pub open spec fn login_redirect_text(host: Seq<char>, session: Seq<char>) -> Seq<char> {
    host + "/?t="@ + session
}

/// Where the user goes after logging in.
pub fn login_redirect_location(redirect_host_and_port: &str, session: &str) -> (r: String)
    ensures
        r@ == login_redirect_text(redirect_host_and_port@, session@),
{
    let mut location = String::from_str(redirect_host_and_port);
    location.append("/?t=");
    location.append(session);
    location
}

} // verus!
