//! Which handler answers a request.
use crate::encoding::{str_equal, str_starts_with};
use crate::server::helpers::{entries_map, keys_distinct, opt_text, query_lookup};
use vstd::prelude::*;

verus! {

/// The handlers of the server.
#[derive(PartialEq, Eq, Structural, Clone, Copy, Debug)]
pub enum Route {
    /// `GET /`: the tops page, or the login redirect.
    Home,
    /// `GET /SpotifyLoginCallback/`: the end of the login.
    LoginCallback,
    /// `GET /static/...`: a file.
    StaticFile,
    /// Anything else: not found.
    NotFound,
}

/// The handler for a request with the method GET or not (`is_get`) and the
/// path `path`.
pub open spec fn route_for(is_get: bool, path: Seq<char>) -> Route {
    if !is_get {
        Route::NotFound
    } else if path == "/"@ {
        Route::Home
    } else if path == "/SpotifyLoginCallback/"@ {
        Route::LoginCallback
    } else if "/static/"@.is_prefix_of(path) {
        Route::StaticFile
    } else {
        Route::NotFound
    }
}

/// The handler for a request.
pub fn route(is_get: bool, path: &str) -> (r: Route)
    ensures
        r == route_for(is_get, path@),
{
    if !is_get {
        Route::NotFound
    } else if str_equal(path, "/") {
        Route::Home
    } else if str_equal(path, "/SpotifyLoginCallback/") {
        Route::LoginCallback
    } else if str_starts_with(path, "/static/") {
        Route::StaticFile
    } else {
        Route::NotFound
    }
}

/// Law: every GET request for a path under `/static/` is served from the
/// files; any request that is not a GET is not found.
pub proof fn law_static_paths_and_methods(path: Seq<char>)
    ensures
        "/static/"@.is_prefix_of(path) ==> route_for(true, path) == Route::StaticFile,
        route_for(false, path) == Route::NotFound,
{
    if "/static/"@.is_prefix_of(path) {
        reveal_strlit("/static/");
        reveal_strlit("/");
        reveal_strlit("/SpotifyLoginCallback/");
        assert(path.len() >= 8);
        assert(path != "/"@);
        assert("/static/"@[1] == 's');
        assert(path[1] == "/static/"@[1]);
        assert("/SpotifyLoginCallback/"@[1] == 'S');
        assert(path != "/SpotifyLoginCallback/"@);
    }
}

/// The session named by the query of a request to `/`: the value of `t`.
pub open spec fn session_of(query: Map<Seq<char>, Option<Seq<char>>>) -> Option<Seq<char>> {
    if query.contains_key("t"@) {
        query["t"@]
    } else {
        None
    }
}

/// The session that the query of a request to `/` names, if any.
pub fn session_key(query: &Vec<(String, Option<String>)>) -> (r: Option<String>)
    requires
        keys_distinct(query@),
    ensures
        opt_text(r) == session_of(entries_map(query@)),
{
    match query_lookup(query, "t") {
        Some(value) => match value {
            Some(token) => Some(token.clone()),
            None => None,
        },
        None => None,
    }
}

} // verus!
