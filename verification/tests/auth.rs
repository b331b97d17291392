use spotifytops::config::{Config, DeserializedConfig};
use spotifytops::spotify::auth::spotify_scopes::{
    are_scopes_current, get_scopes, join_strings, sort_vector, spotify_scopes, text_less,
};
use spotifytops::spotify::auth::token_request::TokenRequest;
use spotifytops::spotify::auth::token_response::TokenResponse;
use spotifytops::spotify::auth::{get_callback, get_redirect, p_encode};

const SORTED_SCOPES: &str = "playlist-modify-private playlist-modify-public \
playlist-read-collaborative playlist-read-private user-library-read user-read-birthdate \
user-read-currently-playing user-read-email user-read-private user-read-recently-played \
user-top-read";

fn config(client_id: &str, secret: &str, host: &str) -> Config {
    let mut file = DeserializedConfig::empty();
    file.client_id = Some(client_id.to_string());
    file.client_secret = Some(secret.to_string());
    file.redirect_host_and_port = Some(host.to_string());
    Config::from_sources(DeserializedConfig::empty(), file)
}

#[test]
fn p_encode_keeps_printable_ascii() {
    assert_eq!(p_encode(&"http://localhost:8000/a b?c=d&e".to_string()), "http://localhost:8000/a b?c=d&e");
}

#[test]
fn p_encode_encodes_controls_and_non_ascii() {
    assert_eq!(p_encode(&"a\nb\u{7f}\u{e9}".to_string()), "a%0Ab%7F%C3%A9");
    assert_eq!(p_encode(&"\t".to_string()), "%09");
    assert_eq!(p_encode(&String::new()), "");
}

#[test]
fn callback_is_the_encoded_host_and_the_callback_path() {
    let c = config("id", "secret", "http://localhost:8000");
    assert_eq!(get_callback(&c), "http://localhost:8000/SpotifyLoginCallback/");
    let c = config("id", "secret", "http://h\n");
    assert_eq!(get_callback(&c), "http://h%0A/SpotifyLoginCallback/");
}

#[test]
fn scopes_are_sorted_and_joined() {
    assert_eq!(get_scopes(), SORTED_SCOPES);
    let scopes = spotify_scopes();
    assert_eq!(scopes.len(), 11);
    for i in 1..scopes.len() {
        assert!(scopes[i - 1] < scopes[i]);
    }
    assert!(are_scopes_current());
}

#[test]
fn sort_vector_sorts_and_copies() {
    let mut v = vec!["b".to_string(), "a".to_string(), "ab".to_string(), "a".to_string(), "".to_string()];
    let copy = sort_vector(&mut v);
    assert_eq!(v, vec!["", "a", "a", "ab", "b"]);
    assert_eq!(copy, v);
}

#[test]
fn text_less_is_lexicographic() {
    assert!(text_less("a", "b"));
    assert!(text_less("a", "ab"));
    assert!(!text_less("ab", "a"));
    assert!(!text_less("a", "a"));
    assert!(text_less("", "a"));
    assert!(text_less("z", "\u{e9}"));
}

#[test]
fn join_strings_puts_the_separator_between() {
    assert_eq!(join_strings(&vec![], ", "), "");
    assert_eq!(join_strings(&vec!["x".to_string()], ", "), "x");
    assert_eq!(join_strings(&vec!["x".to_string(), "y".to_string()], ", "), "x, y");
}

#[test]
fn redirect_carries_client_callback_scopes_and_state() {
    let c = config("client", "secret", "http://localhost:8000");
    let expected = format!(
        "https://accounts.spotify.com/authorize/?client_id=client&response_type=code&redirect_uri=http://localhost:8000/SpotifyLoginCallback/&scope={}&state=http://x/?a=1&show_dialog=False",
        SORTED_SCOPES
    );
    assert_eq!(get_redirect(&"http://x/?a=1".to_string(), &c), expected);
}

#[test]
fn token_request_body_is_form_encoded() {
    let c = config("my id", "s&cr\u{e9}t", "http://localhost:8000");
    assert_eq!(
        TokenRequest::get_serialized_request("c0de", &c),
        "grant_type=authorization_code&client_id=my+id&client_secret=s%26cr%C3%A9t&code=c0de&redirect_uri=http://localhost:8000/SpotifyLoginCallback/"
    );
}

#[test]
fn token_request_keeps_unreserved_characters() {
    let c = config("A-z_0.9*", "~x", "h");
    assert_eq!(
        TokenRequest::get_serialized_request("x y", &c),
        "grant_type=authorization_code&client_id=A-z_0.9*&client_secret=%7Ex&code=x y&redirect_uri=h/SpotifyLoginCallback/"
    );
}

#[test]
fn new_error_holds_only_the_error() {
    let r = TokenResponse::new_error("e".to_string(), "d".to_string());
    let e = r.error.unwrap();
    assert_eq!(e.error, "e");
    assert_eq!(e.error_description, "d");
    assert!(r.access_token.is_none());
    assert!(r.refresh_token.is_none());
    assert!(r.token_type.is_none());
    assert!(r.expires_in.is_none());
    assert!(r.scope.is_none());
}
