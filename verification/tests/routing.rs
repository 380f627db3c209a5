use self_meter_http::routing::{classify, parse, Error, Route};

#[test]
fn status_json_is_routed() {
    assert_eq!(classify("GET", "/app/status.json"), Ok(Route::StatusJson));
}

#[test]
fn post_is_not_allowed() {
    assert_eq!(classify("POST", "/app/status.json"), Err(Error::MethodNotAllowed));
}

#[test]
fn query_string_is_stripped() {
    assert_eq!(classify("GET", "/app/bundle.js?v=2"), Ok(Route::Bundle));
}

#[test]
fn other_paths_show_the_page() {
    assert_eq!(classify("GET", "/anything/else"), Ok(Route::Page));
}

#[test]
fn stylesheet_is_routed() {
    assert_eq!(classify("GET", "/main.css"), Ok(Route::Stylesheet));
    assert_eq!(classify("GET", "/deep/er/main.css"), Ok(Route::Stylesheet));
}

#[test]
fn fragment_is_stripped() {
    assert_eq!(classify("GET", "/app/status.json#now"), Ok(Route::StatusJson));
    assert_eq!(classify("GET", "/app/main.css#a?b"), Ok(Route::Stylesheet));
}

#[test]
fn suffix_behind_the_query_does_not_count() {
    assert_eq!(classify("GET", "/app?next=/bundle.js"), Ok(Route::Page));
    assert_eq!(classify("GET", "/app#/status.json"), Ok(Route::Page));
    assert_eq!(classify("GET", "?/main.css"), Ok(Route::Page));
}

#[test]
fn suffix_needs_its_slash() {
    assert_eq!(classify("GET", "bundle.js"), Ok(Route::Page));
    assert_eq!(classify("GET", "/xbundle.js"), Ok(Route::Page));
    assert_eq!(classify("GET", "/bundle.js/"), Ok(Route::Page));
    assert_eq!(classify("GET", "/bundle.jsx"), Ok(Route::Page));
}

#[test]
fn empty_path_shows_the_page() {
    assert_eq!(classify("GET", ""), Ok(Route::Page));
    assert_eq!(classify("GET", "/"), Ok(Route::Page));
}

#[test]
fn method_is_matched_exactly() {
    assert_eq!(classify("get", "/status.json"), Err(Error::MethodNotAllowed));
    assert_eq!(classify("GETS", "/status.json"), Err(Error::MethodNotAllowed));
    assert_eq!(classify("GE", "/status.json"), Err(Error::MethodNotAllowed));
    assert_eq!(classify("", "/status.json"), Err(Error::MethodNotAllowed));
    assert_eq!(classify("HEAD", "/"), Err(Error::MethodNotAllowed));
}

#[test]
fn non_ascii_paths_are_routed_by_their_end() {
    assert_eq!(classify("GET", "/caf\u{e9}/status.json"), Ok(Route::StatusJson));
    assert_eq!(classify("GET", "/\u{1f600}/bundle.js?\u{e9}"), Ok(Route::Bundle));
    assert_eq!(classify("GET", "/main.css\u{e9}"), Ok(Route::Page));
    assert_eq!(classify("G\u{c9}T", "/main.css"), Err(Error::MethodNotAllowed));
}

#[test]
fn no_path_is_not_found() {
    for path in ["", "/", "/nothing", "/a/b/c.txt", "/status.jsonx", "#", "?"] {
        assert_ne!(classify("GET", path), Err(Error::NotFound));
    }
}

#[test]
fn parse_ignores_headers() {
    let headers: Vec<(&str, &[u8])> = vec![("Host", &b"localhost"[..])];
    assert_eq!(parse("GET", "/main.css#top", headers.into_iter()), Ok(Route::Stylesheet));
    let none: Vec<(&str, &[u8])> = Vec::new();
    assert_eq!(parse("PUT", "/main.css", none.into_iter()), Err(Error::MethodNotAllowed));
}

#[test]
fn parse_agrees_with_classify() {
    for method in ["GET", "POST", "DELETE"] {
        for path in ["/bundle.js", "/x/main.css?y", "/status.json#z", "/other"] {
            let none: Vec<(&str, &[u8])> = Vec::new();
            assert_eq!(parse(method, path, none.into_iter()), classify(method, path));
        }
    }
}
