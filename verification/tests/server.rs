use spotifytops::routes::{route, session_key, Route};
use spotifytops::server::file_server::static_file_path;
use spotifytops::server::helpers::{
    file_path_mime, get_query, mime_type_for_extension, parse_query, query_lookup, split_by,
};

fn lookup(entries: &Vec<(String, Option<String>)>, key: &str) -> Option<Option<String>> {
    query_lookup(entries, key).cloned()
}

#[test]
fn split_by_keeps_empty_pieces() {
    assert_eq!(split_by("", '&'), vec![""]);
    assert_eq!(split_by("a&b", '&'), vec!["a", "b"]);
    assert_eq!(split_by("&a&&", '&'), vec!["", "a", "", ""]);
    assert_eq!(split_by("\u{e9}=\u{e8}", '='), vec!["\u{e9}", "\u{e8}"]);
}

#[test]
fn query_names_and_values() {
    let q = get_query(Some("t=abc&x&y=a%20b&t=def&z=1=2")).unwrap();
    assert_eq!(q.len(), 4);
    assert_eq!(lookup(&q, "t"), Some(Some("def".to_string())));
    assert_eq!(lookup(&q, "x"), Some(None));
    assert_eq!(lookup(&q, "y"), Some(Some("a b".to_string())));
    assert_eq!(lookup(&q, "z"), Some(Some("1".to_string())));
    assert_eq!(lookup(&q, "w"), None);
}

#[test]
fn no_query_gives_none() {
    assert!(get_query(None).is_none());
}

#[test]
fn empty_query_has_one_empty_name() {
    let q = get_query(Some("")).unwrap();
    assert_eq!(q, vec![(String::new(), None)]);
}

#[test]
fn percent_decoding_of_values() {
    let q = parse_query("a=%C3%A9&b=%zz&c=%4&d=%41%42+").unwrap();
    assert_eq!(lookup(&q, "a"), Some(Some("\u{e9}".to_string())));
    assert_eq!(lookup(&q, "b"), Some(Some("%zz".to_string())));
    assert_eq!(lookup(&q, "c"), Some(Some("%4".to_string())));
    assert_eq!(lookup(&q, "d"), Some(Some("AB+".to_string())));
}

#[test]
fn values_that_are_not_text_are_refused() {
    assert!(parse_query("a=%FF").is_none());
    assert!(parse_query("ok=1&a=%C3").is_none());
    assert!(parse_query("a%FF=1").is_some());
}

#[test]
fn media_types_by_extension() {
    assert_eq!(file_path_mime("static/app.js"), "text/javascript");
    assert_eq!(file_path_mime("index.html"), "text/html");
    assert_eq!(file_path_mime("a/b.css"), "text/css");
    assert_eq!(file_path_mime("p.jpg"), "image/jpeg");
    assert_eq!(file_path_mime("README.md"), "text/markdown; charset=utf-8");
    assert_eq!(file_path_mime("i.png"), "image/png");
    assert_eq!(file_path_mime("i.svg"), "image/svg+xml");
    assert_eq!(file_path_mime("m.wasm"), "application/wasm");
    assert_eq!(file_path_mime("a/b"), "text/plain");
    assert_eq!(file_path_mime(".bashrc"), "text/plain");
    assert_eq!(file_path_mime("x.tar.gz"), "text/plain");
    assert_eq!(mime_type_for_extension(None), "text/plain");
    assert_eq!(mime_type_for_extension(Some("css")), "text/css");
}

#[test]
fn static_paths_go_under_the_static_directory() {
    assert_eq!(static_file_path("/srv", "/static/", "/static/css/a.css"), "/srv/css/a.css");
    assert_eq!(static_file_path("", "/static/", "/static/"), "/");
    assert_eq!(static_file_path("d", "ab", "\u{e9}x"), "d/x");
}

#[test]
fn routes_of_the_server() {
    assert_eq!(route(true, "/"), Route::Home);
    assert_eq!(route(true, "/SpotifyLoginCallback/"), Route::LoginCallback);
    assert_eq!(route(true, "/static/app.js"), Route::StaticFile);
    assert_eq!(route(true, "/static/"), Route::StaticFile);
    assert_eq!(route(true, "/static"), Route::NotFound);
    assert_eq!(route(false, "/"), Route::NotFound);
    assert_eq!(route(true, "/other"), Route::NotFound);
}

#[test]
fn session_key_is_the_value_of_t() {
    let q = get_query(Some("t=abc")).unwrap();
    assert_eq!(session_key(&q), Some("abc".to_string()));
    let q = get_query(Some("t")).unwrap();
    assert_eq!(session_key(&q), None);
    let q = get_query(Some("u=1")).unwrap();
    assert_eq!(session_key(&q), None);
}
