//! Logging in with Spotify: the callback address, the authorization
//! redirect, and the token exchange.
pub mod spotify_scopes;
pub mod token_request;
pub mod token_response;

use crate::config::Config;
use crate::encoding::{percent_encode_controls, percent_encode_controls_exec};
use spotify_scopes::{get_scopes, scopes_text};
use vstd::prelude::*;

verus! {

/// `s` with its control characters and non-ASCII bytes percent-encoded.
pub fn p_encode(s: &String) -> (r: String)
    ensures
        r@ == percent_encode_controls(s@),
{
    percent_encode_controls_exec(s.as_str())
}

/// The address that Spotify sends the user back to, on the host `host`.
pub open spec fn callback_text(host: Seq<char>) -> Seq<char> {
    percent_encode_controls(host) + "/SpotifyLoginCallback/"@
}

/// The address that Spotify sends the user back to after logging in.
pub fn get_callback(config: &Config) -> (r: String)
    ensures
        r@ == callback_text(config.redirect_host_and_port@),
{
    let mut callback = p_encode(&config.redirect_host_and_port);
    callback.append("/SpotifyLoginCallback/");
    callback
}

/// The authorization address for the client `client_id`, the callback
/// host `host` and the state `state`.
pub open spec fn redirect_text(client_id: Seq<char>, host: Seq<char>, state: Seq<char>) -> Seq<char> {
    "https://accounts.spotify.com/authorize/?client_id="@ + percent_encode_controls(client_id)
        + "&response_type=code&redirect_uri="@ + percent_encode_controls(callback_text(host))
        + "&scope="@ + percent_encode_controls(scopes_text()) + "&state="@
        + percent_encode_controls(state) + "&show_dialog=False"@
}

/// The Spotify authorization address that a user is sent to, with `state`
/// as the state that comes back.
pub fn get_redirect(state: &String, config: &Config) -> (r: String)
    ensures
        r@ == redirect_text(config.client_id@, config.redirect_host_and_port@, state@),
{
    let mut redirect = String::from_str("https://accounts.spotify.com/authorize/?client_id=");
    redirect.append(p_encode(&config.client_id).as_str());
    redirect.append("&response_type=code&redirect_uri=");
    redirect.append(p_encode(&get_callback(config)).as_str());
    redirect.append("&scope=");
    redirect.append(p_encode(&get_scopes()).as_str());
    redirect.append("&state=");
    redirect.append(p_encode(state).as_str());
    redirect.append("&show_dialog=False");
    redirect
}

} // verus!
