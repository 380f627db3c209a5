use self_meter_http::data::{BUNDLE, CSS, HTML};
use self_meter_http::reply::{reply_to, Body, Framing, Reply, Status, SERVER};
use self_meter_http::routing::{Error, Route};

fn expected(status: Status, content_type: &'static str, framing: Framing, body: Body) -> Reply {
    Reply {
        status,
        headers: vec![("Server", SERVER), ("Content-Type", content_type)],
        framing,
        body,
    }
}

#[test]
fn page_is_served_as_html() {
    assert_eq!(
        reply_to(Ok(Route::Page)),
        expected(Status::Success, "text/html", Framing::Length(HTML.len() as u64), Body::Static(HTML))
    );
}

#[test]
fn bundle_is_served_as_javascript() {
    assert_eq!(
        reply_to(Ok(Route::Bundle)),
        expected(
            Status::Success,
            "application/javascript",
            Framing::Length(BUNDLE.len() as u64),
            Body::Static(BUNDLE)
        )
    );
}

#[test]
fn stylesheet_is_served_as_stylesheet() {
    assert_eq!(
        reply_to(Ok(Route::Stylesheet)),
        expected(Status::Success, "text/stylesheet", Framing::Length(CSS.len() as u64), Body::Static(CSS))
    );
}

#[test]
fn status_json_is_served_in_chunks() {
    assert_eq!(
        reply_to(Ok(Route::StatusJson)),
        expected(Status::Success, "application/json", Framing::Chunked, Body::Report)
    );
}

#[test]
fn errors_carry_their_status_and_the_report() {
    assert_eq!(
        reply_to(Err(Error::NotFound)),
        expected(Status::NotFound, "application/json", Framing::Chunked, Body::Report)
    );
    assert_eq!(
        reply_to(Err(Error::MethodNotAllowed)),
        expected(Status::MethodNotAllowed, "application/json", Framing::Chunked, Body::Report)
    );
}

#[test]
fn status_codes_are_the_http_numbers() {
    assert_eq!(Status::Success.code(), 200);
    assert_eq!(Status::NotFound.code(), 404);
    assert_eq!(Status::MethodNotAllowed.code(), 405);
}

#[test]
fn server_header_names_the_component() {
    assert_eq!(SERVER, "self-meter-http/0.4.1");
    for route in [Ok(Route::Page), Ok(Route::StatusJson), Err(Error::MethodNotAllowed)] {
        assert_eq!(reply_to(route).headers[0], ("Server", "self-meter-http/0.4.1"));
    }
}

#[test]
fn announced_length_is_the_length_of_the_body() {
    for route in [Route::Page, Route::Bundle, Route::Stylesheet] {
        let reply = reply_to(Ok(route));
        match (reply.framing, reply.body) {
            (Framing::Length(n), Body::Static(text)) => {
                assert_eq!(n, text.as_bytes().len() as u64);
                assert!(n > 0);
            }
            other => panic!("unexpected plan: {:?}", other),
        }
    }
}

#[test]
fn body_is_written_only_where_it_is_asked_for() {
    for route in [Ok(Route::Page), Ok(Route::StatusJson), Err(Error::NotFound)] {
        let reply = reply_to(route);
        assert_eq!(reply.body_to_write(true), Some(reply.body));
        assert_eq!(reply.body_to_write(false), None);
    }
    assert_eq!(reply_to(Ok(Route::Bundle)).body_to_write(true), Some(Body::Static(BUNDLE)));
    assert_eq!(reply_to(Err(Error::MethodNotAllowed)).body_to_write(true), Some(Body::Report));
}
