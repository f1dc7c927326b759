use houdini::handshake::{answer_hello, interpret_ack, tokens_match, Hello, HelloAck, HelloError, PROTOCOL_VERSION};
use houdini::text::{is_blank, push_decimal};

fn hello(version: u16, token: &str) -> Hello {
    Hello { protocol_version: version, token: token.to_string(), client_name: Some("laptop".to_string()) }
}

#[test]
fn protocol_version_is_one() {
    assert_eq!(PROTOCOL_VERSION, 1);
    let h = Hello::new("t".to_string(), None);
    assert_eq!(h.protocol_version, 1);
    assert_eq!(h.token, "t");
    assert!(h.client_name.is_none());
}

#[test]
fn accepted_client_gets_server_name() {
    match answer_hello(&hello(1, "secret"), "secret", false, "houdini") {
        HelloAck::Accepted { server_name } => assert_eq!(server_name, "houdini"),
        other => panic!("unexpected {other:?}"),
    }
}

#[test]
fn wrong_version_is_refused_first() {
    match answer_hello(&hello(7, "wrong"), "secret", true, "houdini") {
        HelloAck::Rejected { kind, message } => {
            assert_eq!(kind, HelloError::UnsupportedVersion);
            assert_eq!(message, "server speaks v1, client tried v7");
        }
        other => panic!("unexpected {other:?}"),
    }
    match answer_hello(&hello(65535, "secret"), "secret", false, "houdini") {
        HelloAck::Rejected { message, .. } => assert_eq!(message, "server speaks v1, client tried v65535"),
        other => panic!("unexpected {other:?}"),
    }
    match answer_hello(&hello(0, "secret"), "secret", false, "houdini") {
        HelloAck::Rejected { message, .. } => assert_eq!(message, "server speaks v1, client tried v0"),
        other => panic!("unexpected {other:?}"),
    }
}

#[test]
fn wrong_token_is_refused() {
    match answer_hello(&hello(1, "secreT"), "secret", true, "houdini") {
        HelloAck::Rejected { kind, message } => {
            assert_eq!(kind, HelloError::AuthFailed);
            assert_eq!(message, "invalid token");
        }
        other => panic!("unexpected {other:?}"),
    }
}

#[test]
fn second_client_is_refused_while_tunnel_is_held() {
    match answer_hello(&hello(1, "secret"), "secret", true, "houdini") {
        HelloAck::Rejected { kind, message } => {
            assert_eq!(kind, HelloError::AlreadyConnected);
            assert_eq!(message, "another client is already connected");
        }
        other => panic!("unexpected {other:?}"),
    }
}

#[test]
fn tokens_compare_exactly() {
    assert!(tokens_match("abc", "abc"));
    assert!(!tokens_match("abc", "abd"));
    assert!(!tokens_match("abc", "abcd"));
    assert!(!tokens_match("", "a"));
    assert!(tokens_match("", ""));
    assert!(tokens_match("héllo", "héllo"));
    assert!(!tokens_match("héllo", "hello"));
}

#[test]
fn client_reads_acks() {
    let ok = HelloAck::Accepted { server_name: "edge".to_string() };
    assert_eq!(interpret_ack(&ok), Ok("edge".to_string()));
    let err = HelloAck::Rejected { kind: HelloError::AlreadyConnected, message: "busy".to_string() };
    assert_eq!(interpret_ack(&err), Err("AlreadyConnected: busy".to_string()));
    let err = HelloAck::Rejected { kind: HelloError::AuthFailed, message: "invalid token".to_string() };
    assert_eq!(interpret_ack(&err), Err("AuthFailed: invalid token".to_string()));
    let err = HelloAck::Rejected { kind: HelloError::UnsupportedVersion, message: "x".to_string() };
    assert_eq!(interpret_ack(&err), Err("UnsupportedVersion: x".to_string()));
    assert_eq!(HelloError::AuthFailed.name(), format!("{:?}", HelloError::AuthFailed));
}

#[test]
fn decimal_rendering() {
    let mut s = String::from("v");
    push_decimal(&mut s, 0);
    assert_eq!(s, "v0");
    let mut s = String::new();
    push_decimal(&mut s, 18446744073709551615);
    assert_eq!(s, "18446744073709551615");
    let mut s = String::new();
    push_decimal(&mut s, 1020);
    assert_eq!(s, "1020");
}

#[test]
fn blank_texts() {
    assert!(is_blank(""));
    assert!(is_blank(" \t\n\r\u{0b}\u{0c}\u{a0}\u{3000}\u{2028}"));
    assert!(!is_blank(" x "));
    assert!(!is_blank("\u{200b}"));
    for c in ['\u{85}', '\u{1680}', '\u{2000}', '\u{200a}', '\u{2029}', '\u{202f}', '\u{205f}'] {
        assert!(is_blank(&c.to_string()), "{c:?}");
        assert_eq!(houdini::text::is_white_space_char(c), c.is_whitespace());
    }
    for u in 0u32..0x3100 {
        if let Some(c) = char::from_u32(u) {
            assert_eq!(houdini::text::is_white_space_char(c), c.is_whitespace(), "{u:x}");
        }
    }
}
