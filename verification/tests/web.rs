use houdini::headers::{connection_options_of, sanitize_forwarded, strip_hop_by_hop, Header};
use houdini::web::{
    classify_ws, error_response, rewrite_request, rewrite_target, select_tunnel, upstream_uri, WebError,
    WsInbound, WsMessage,
};

fn h(name: &str, value: &str) -> Header {
    Header { name: name.to_string(), value: value.as_bytes().to_vec() }
}

fn names(hs: &[Header]) -> Vec<String> {
    hs.iter().map(|h| h.name.clone()).collect()
}

#[test]
fn hop_by_hop_headers_are_stripped() {
    let input = vec![
        h("host", "example.com"),
        h("connection", "keep-alive, X-Custom ,, bad header"),
        h("keep-alive", "timeout=5"),
        h("x-custom", "1"),
        h("te", "trailers"),
        h("upgrade", "websocket"),
        h("accept", "*/*"),
        h("transfer-encoding", "chunked"),
        h("proxy-authorization", "x"),
        h("proxy-authenticate", "x"),
        h("trailer", "x"),
        h("x-custom", "2"),
    ];
    assert_eq!(connection_options_of(&input), vec!["keep-alive".to_string(), "x-custom".to_string()]);
    let out = strip_hop_by_hop(&input);
    assert_eq!(names(&out), vec!["host", "accept"]);
    assert_eq!(out[1].value, b"*/*".to_vec());
}

#[test]
fn only_first_connection_value_counts() {
    let input = vec![h("connection", "close"), h("connection", "x-a"), h("x-a", "1")];
    assert_eq!(names(&strip_hop_by_hop(&input)), vec!["x-a"]);
}

#[test]
fn non_visible_connection_value_lists_nothing() {
    let input = vec![
        Header { name: "connection".into(), value: vec![b'x', b'-', b'a', 0xff] },
        h("x-a", "1"),
    ];
    assert!(connection_options_of(&input).is_empty());
    assert_eq!(names(&strip_hop_by_hop(&input)), vec!["x-a"]);
}

#[test]
fn forwarded_for_is_appended() {
    let input = vec![h("x-forwarded-for", "10.0.0.1"), h("connection", "close"), h("accept", "a")];
    let out = sanitize_forwarded(&input, "192.0.2.7");
    assert_eq!(names(&out), vec!["x-forwarded-for", "accept", "x-forwarded-for"]);
    assert_eq!(out[2].value, b"192.0.2.7".to_vec());
    let out = sanitize_forwarded(&input, "bad\u{7f}");
    assert_eq!(names(&out), vec!["x-forwarded-for", "accept"]);
}

#[test]
fn public_errors() {
    let e = WebError::NoTunnel;
    assert_eq!(e.status(), 502);
    assert_eq!(e.public_message(), "no houdini client connected\n");
    assert_eq!(e.describe(), "no houdini client connected");
    let e = WebError::TunnelClosed;
    assert_eq!(e.public_message(), "tunnel closed\n");
    assert_eq!(e.describe(), "tunnel transport closed");
    let e = WebError::Internal("boom".into());
    assert_eq!(e.public_message(), "tunnel error\n");
    assert_eq!(e.describe(), "internal error: boom");
}

#[test]
fn tunnel_selection() {
    assert!(matches!(select_tunnel(false, false), Err(WebError::NoTunnel)));
    assert!(matches!(select_tunnel(false, true), Err(WebError::NoTunnel)));
    assert!(matches!(select_tunnel(true, false), Err(WebError::TunnelClosed)));
    assert!(select_tunnel(true, true).is_ok());
}

#[test]
fn plain_error_reply() {
    let r = error_response(502, "bad upstream URI");
    assert_eq!(r.status, 502);
    assert_eq!(r.content_type, "text/plain; charset=utf-8");
    assert_eq!(r.body, "bad upstream URI\n");
}

#[test]
fn upstream_uris() {
    assert_eq!(upstream_uri("http://127.0.0.1:3000/", Some("/a?b=1")), "http://127.0.0.1:3000/a?b=1");
    assert_eq!(upstream_uri("http://127.0.0.1:3000///", None), "http://127.0.0.1:3000/");
    assert_eq!(upstream_uri("http://h/base", Some("/x")), "http://h/base/x");
    assert_eq!(upstream_uri("", None), "/");
}

#[test]
fn websocket_messages() {
    assert!(matches!(classify_ws(WsMessage::Binary(vec![1])), WsInbound::Payload(ref b) if b == &vec![1]));
    assert!(matches!(classify_ws(WsMessage::Close), WsInbound::End));
    assert!(matches!(classify_ws(WsMessage::Other), WsInbound::Skip));
}

#[test]
fn forwarded_request_is_rewritten() {
    let input = vec![
        h("host", "public.example.com"),
        h("connection", "close, x-trace"),
        h("x-trace", "1"),
        h("keep-alive", "timeout=5"),
        h("accept", "*/*"),
    ];
    let r = rewrite_request(&input, "http://127.0.0.1:3000/", Some("/api/items?page=2"));
    assert_eq!(r.uri.as_deref(), Some("http://127.0.0.1:3000/api/items?page=2"));
    assert_eq!(names(&r.headers), vec!["accept", "host"]);
    assert_eq!(r.headers[1].value, b"127.0.0.1:3000".to_vec());
}

#[test]
fn unparsable_upstream_uri_fails_after_stripping() {
    let input = vec![h("host", "a"), h("te", "trailers")];
    let r = rewrite_request(&input, "http://exa mple", Some("/x"));
    assert!(r.uri.is_none());
    assert_eq!(names(&r.headers), vec!["host"]);
    assert_eq!(r.headers[0].value, b"a".to_vec());
    assert!(rewrite_target("http://exa mple", None).is_none());
}

#[test]
fn upstream_target_and_host() {
    assert_eq!(
        rewrite_target("http://localhost:8080", Some("/p")),
        Some(("http://localhost:8080/p".to_string(), Some("localhost:8080".to_string())))
    );
    // A relative target has no authority, so no Host is set.
    assert_eq!(rewrite_target("", Some("/p")), Some(("/p".to_string(), None)));
}
