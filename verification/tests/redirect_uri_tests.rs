use spotify_access::redirect_uri::{
    bind_address, callback_url, handle_connection, http_response, redirect_uri_step,
    respond_with_error, respond_with_success, ListenerEvent, ListenerStep, DEFAULT_HOST,
    MALFORMED_REQUEST, SUCCESS_PAGE,
};

const MALFORMED_RESPONSE: &str = "HTTP/1.1 400 Bad Request\r\nContent-Type: text/plain; charset=utf-8\r\nContent-Length: 37\r\nConnection: close\r\n\r\n400 - Bad Request - Malformed request";

#[test]
fn callback_request_gives_the_redirect_url() {
    let request = "GET /callback?code=ABC123 HTTP/1.1\r\nHost: 127.0.0.1:8888\r\n\r\n";
    assert_eq!(
        callback_url(request),
        Some("http://127.0.0.1:8888/callback?code=ABC123".to_string())
    );
}

#[test]
fn host_header_is_found_among_others_in_any_case() {
    let request = "GET /callback?code=x&state=y HTTP/1.1\r\nUser-Agent: test\r\nhOsT:   localhost:9090  \r\nAccept: */*\r\n\r\n";
    assert_eq!(
        callback_url(request),
        Some("http://localhost:9090/callback?code=x&state=y".to_string())
    );
    let request = "GET /a HTTP/1.1\nHOST:example.org\n\n";
    assert_eq!(callback_url(request), Some("http://example.org/a".to_string()));
}

#[test]
fn first_host_header_wins() {
    let request = "GET / HTTP/1.1\r\nHost: first\r\nHost: second\r\n\r\n";
    assert_eq!(callback_url(request), Some("http://first/".to_string()));
}

#[test]
fn host_is_searched_at_line_starts_only() {
    let request = "GET /p HTTP/1.1\r\nX-Forwarded-Host: proxy\r\nReferer: host: x\r\n\r\n";
    assert_eq!(callback_url(request), Some("http://127.0.0.1:8888/p".to_string()));
}

#[test]
fn missing_host_falls_back_to_the_default() {
    assert_eq!(DEFAULT_HOST, "127.0.0.1:8888");
    assert_eq!(
        callback_url("GET /callback?code=1 HTTP/1.1\r\n\r\n"),
        Some("http://127.0.0.1:8888/callback?code=1".to_string())
    );
    assert_eq!(callback_url("GET /x"), Some("http://127.0.0.1:8888/x".to_string()));
}

#[test]
fn empty_host_header_gives_an_empty_host() {
    assert_eq!(
        callback_url("GET /x HTTP/1.1\r\nHost:\r\n\r\n"),
        Some("http:///x".to_string())
    );
    assert_eq!(
        callback_url("GET /x HTTP/1.1\r\nHost:"),
        Some("http:///x".to_string())
    );
}

#[test]
fn any_path_is_accepted() {
    assert_eq!(
        callback_url("POST /other/path?x=1 HTTP/1.0\r\nHost: h\r\n\r\n"),
        Some("http://h/other/path?x=1".to_string())
    );
    assert_eq!(
        callback_url("  \t GET\t\t/tabbed\r\nHost: h\r\n"),
        Some("http://h/tabbed".to_string())
    );
}

#[test]
fn request_without_a_target_is_malformed() {
    assert_eq!(callback_url(""), None);
    assert_eq!(callback_url("GET"), None);
    assert_eq!(callback_url("   GET   \r\n"), None);
    assert_eq!(callback_url(" \r\n\t "), None);
}

#[test]
fn responses_are_written_out_in_full() {
    assert_eq!(
        http_response("200 OK", "text/plain", "hi"),
        "HTTP/1.1 200 OK\r\nContent-Type: text/plain\r\nContent-Length: 2\r\nConnection: close\r\n\r\nhi"
    );
    assert_eq!(MALFORMED_REQUEST, "Malformed request");
    assert_eq!(respond_with_error(MALFORMED_REQUEST), MALFORMED_RESPONSE);
    assert_eq!(
        respond_with_success(),
        format!(
            "HTTP/1.1 200 OK\r\nContent-Type: text/html; charset=utf-8\r\nContent-Length: {}\r\nConnection: close\r\n\r\n{}",
            SUCCESS_PAGE.len(),
            SUCCESS_PAGE
        )
    );
    assert!(SUCCESS_PAGE.len() >= 100);
}

#[test]
fn content_length_counts_bytes() {
    assert_eq!(
        http_response("200 OK", "text/plain", "\u{e9}t\u{e9}"),
        "HTTP/1.1 200 OK\r\nContent-Type: text/plain\r\nContent-Length: 5\r\nConnection: close\r\n\r\n\u{e9}t\u{e9}"
    );
    assert_eq!(
        http_response("204 No Content", "text/plain", ""),
        "HTTP/1.1 204 No Content\r\nContent-Type: text/plain\r\nContent-Length: 0\r\nConnection: close\r\n\r\n"
    );
}

#[test]
fn connection_is_answered_by_what_it_asked() {
    let handled = handle_connection("GET /callback?code=ABC123 HTTP/1.1\r\nHost: 127.0.0.1:8888\r\n\r\n");
    assert_eq!(
        handled.url,
        Some("http://127.0.0.1:8888/callback?code=ABC123".to_string())
    );
    assert_eq!(handled.response, respond_with_success());
    assert!(handled.response.starts_with("HTTP/1.1 200 OK\r\n"));

    let handled = handle_connection("\r\n");
    assert_eq!(handled.url, None);
    assert_eq!(handled.response, MALFORMED_RESPONSE);
}

#[test]
fn listener_binds_the_loopback_interface() {
    assert_eq!(bind_address(8888), "127.0.0.1:8888");
    assert_eq!(bind_address(0), "127.0.0.1:0");
    assert_eq!(bind_address(65535), "127.0.0.1:65535");
}

#[test]
fn listener_ends_on_the_first_usable_request() {
    let event = ListenerEvent::Request(
        "GET /callback?code=ABC123 HTTP/1.1\r\nHost: 127.0.0.1:8888\r\n\r\n".to_string(),
    );
    match redirect_uri_step(8888, event) {
        ListenerStep::Done { response, url } => {
            assert_eq!(url, "http://127.0.0.1:8888/callback?code=ABC123");
            assert_eq!(response, respond_with_success());
        }
        other => panic!("unexpected step: {:?}", other),
    }
}

#[test]
fn listener_keeps_waiting_after_a_malformed_request() {
    match redirect_uri_step(8888, ListenerEvent::Request("garbage".to_string())) {
        ListenerStep::Rejected { response } => assert_eq!(response, MALFORMED_RESPONSE),
        other => panic!("unexpected step: {:?}", other),
    }
    assert!(matches!(
        redirect_uri_step(8888, ListenerEvent::Unreadable),
        ListenerStep::Ignored
    ));
}

#[test]
fn listener_fails_on_socket_errors() {
    match redirect_uri_step(8888, ListenerEvent::BindFailed("Address already in use".to_string())) {
        ListenerStep::Failed { message } => {
            assert_eq!(message, "Failed to bind to port 8888: Address already in use")
        }
        other => panic!("unexpected step: {:?}", other),
    }
    match redirect_uri_step(80, ListenerEvent::AcceptFailed("reset".to_string())) {
        ListenerStep::Failed { message } => assert_eq!(message, "Connection error: reset"),
        other => panic!("unexpected step: {:?}", other),
    }
    match redirect_uri_step(80, ListenerEvent::Closed) {
        ListenerStep::Failed { message } => assert_eq!(message, "No valid callback received"),
        other => panic!("unexpected step: {:?}", other),
    }
}
