use spotifytops::app::spotify_login_callback::{
    authorization_code, login_redirect_location, token_to_store,
};
use spotifytops::app::spotify_tops::{recently_played_header, time_frame_headers, top_items_retrievers};
use spotifytops::config::{env_var_deserialized_or_default, Config, DeserializedConfig};
use spotifytops::server::helpers::get_query;
use spotifytops::spotify::auth::token_response::TokenResponse;
use spotifytops::spotify::retriever::{RetrievableRequest, Retriever};
use spotifytops::spotify::{recently_played_request, top_items_request, top_items_retriever};

#[test]
fn environment_wins_over_file_and_default() {
    assert_eq!(
        env_var_deserialized_or_default(Some("e".to_string()), Some("f".to_string()), "d"),
        "e"
    );
    assert_eq!(env_var_deserialized_or_default(None, Some("f".to_string()), "d"), "f");
    assert_eq!(env_var_deserialized_or_default(None, None, "d"), "d");
}

#[test]
fn config_from_sources() {
    let mut env = DeserializedConfig::empty();
    env.listen_port = Some("8080".to_string());
    env.client_id = Some("env-id".to_string());
    let mut file = DeserializedConfig::empty();
    file.client_id = Some("file-id".to_string());
    file.static_dir = Some("/srv".to_string());
    let c = Config::from_sources(env, file);
    assert_eq!(c.client_id, "env-id");
    assert_eq!(c.listen_port, "8080");
    assert_eq!(c.static_dir, "/srv");
    assert_eq!(c.client_secret, "");
    assert_eq!(c.template_dir, "");
    assert_eq!(c.listen_addr, "");
    assert_eq!(c.redirect_host_and_port, "");
}

#[test]
fn code_comes_from_the_query() {
    let q = get_query(Some("code=abc%2Fd&state=x")).unwrap();
    assert_eq!(authorization_code(&q), Some("abc/d".to_string()));
    let q = get_query(Some("code")).unwrap();
    assert_eq!(authorization_code(&q), None);
    let q = get_query(Some("error=access_denied")).unwrap();
    assert_eq!(authorization_code(&q), None);
}

#[test]
fn token_is_kept_unless_there_is_an_error() {
    let error = TokenResponse::new_error("e".to_string(), "d".to_string());
    assert_eq!(token_to_store(&error), None);
    let ok = TokenResponse {
        error: None,
        access_token: Some("tok".to_string()),
        refresh_token: None,
        token_type: Some("Bearer".to_string()),
        expires_in: Some(3600),
        scope: None,
    };
    assert_eq!(token_to_store(&ok), Some("tok".to_string()));
}

#[test]
fn login_redirects_home_with_the_session() {
    assert_eq!(login_redirect_location("http://localhost:8000", "1234"), "http://localhost:8000/?t=1234");
}

#[test]
fn top_items_request_addresses() {
    let r = top_items_request::make_request("artists", "short_term");
    assert_eq!(r.uri, "https://api.spotify.com/v1/me/top/artists?limit=50&time_range=short_term");
    let r = recently_played_request::make_request();
    assert_eq!(r.uri, "https://api.spotify.com/v1/me/player/recently-played?limit=50");
}

#[test]
fn retrievers_carry_the_bearer_token() {
    let r: Retriever<u8> = Retriever::new("tok", RetrievableRequest::new("u".to_string()));
    assert_eq!(r.authorization, "Bearer tok");
    assert_eq!(r.retrievable_request.uri, "u");
    let t: top_items_retriever::Retriever<u8> = top_items_retriever::Retriever::new("tok", "tracks", "long_term");
    assert_eq!(t.uri, "https://api.spotify.com/v1/me/top/tracks?limit=50&time_range=long_term");
    assert_eq!(t.authorization, "Bearer tok");
}

#[test]
fn tops_page_requests_three_time_ranges() {
    let rs: Vec<Retriever<u8>> = top_items_retrievers("tok", "artists");
    let uris: Vec<&str> = rs.iter().map(|r| r.retrievable_request.uri.as_str()).collect();
    assert_eq!(
        uris,
        vec![
            "https://api.spotify.com/v1/me/top/artists?limit=50&time_range=short_term",
            "https://api.spotify.com/v1/me/top/artists?limit=50&time_range=medium_term",
            "https://api.spotify.com/v1/me/top/artists?limit=50&time_range=long_term",
        ]
    );
    assert!(rs.iter().all(|r| r.authorization == "Bearer tok"));
    assert_eq!(
        time_frame_headers(),
        vec!["Short Term (4 weeks)", "Medium Term (6 months)", "Long Term (years)"]
    );
    assert_eq!(recently_played_header(), "Last 50 Tracks Played");
}
