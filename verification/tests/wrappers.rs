//! The outside boundaries, exercised through public functions: base64 on
//! websocket payloads and bodies, and the regex engine behind url patterns.

use playwright_core::browser_context::{glob_to_regex, ws_matches, RoutePattern};
use playwright_core::emitter::Emitter;
use playwright_core::json::JsonValue;
use playwright_core::websocket_route::{close_method, handle_event, message_params, send_method, Buffer, Side, WsEvent};

#[test]
fn binary_payloads_cross_as_base64() {
    // The encoder must actually transform: "hello" becomes its base64 text.
    let params = message_params(&Buffer::Bytes(b"hello".to_vec()));
    match params.get("message") {
        Some(v) => match v.as_str() {
            Some(s) => assert_eq!(s, "aGVsbG8="),
            None => panic!("message must be a string"),
        },
        None => panic!("message must be there"),
    }
    match params.get("isBase64") {
        Some(v) => assert_eq!(v.as_bool(), Some(true)),
        None => panic!("flag must be there"),
    }

    // Text goes through untouched, unflagged.
    let params = message_params(&Buffer::Text("plain".to_string()));
    match params.get("message") {
        Some(v) => assert_eq!(v.as_str().map(|s| s.as_str()), Some("plain")),
        None => panic!("message must be there"),
    }
    match params.get("isBase64") {
        Some(v) => assert_eq!(v.as_bool(), Some(false)),
        None => panic!("flag must be there"),
    }
}

#[test]
fn incoming_base64_message_is_decoded() {
    let mut events: Emitter<WsEvent> = Emitter::new();
    let sub = events.subscribe(16);
    let params = JsonValue::obj_new()
        .with_str_field("message", "aGVsbG8=")
        .with_bool_field("isBase64", true);
    handle_event(&mut events, "messageFromPage", &params).expect("valid base64");
    let idx = events.try_recv(sub).expect("one event");
    match events.event(idx) {
        WsEvent::MessageFromPage(Buffer::Bytes(b)) => assert_eq!(b, &b"hello".to_vec()),
        _ => panic!("expected the decoded bytes"),
    }

    // A flagged message that does not decode is an error and emits nothing.
    let params = JsonValue::obj_new()
        .with_str_field("message", "not base64 at all!")
        .with_bool_field("isBase64", true);
    assert!(handle_event(&mut events, "messageFromPage", &params).is_err());
    assert!(events.try_recv(sub).is_none());
}

#[test]
fn close_events_fill_protocol_defaults() {
    let mut events: Emitter<WsEvent> = Emitter::new();
    let sub = events.subscribe(16);
    handle_event(&mut events, "closePage", &JsonValue::obj_new()).expect("defaults fill in");
    let idx = events.try_recv(sub).expect("one event");
    match events.event(idx) {
        WsEvent::CloseFromPage { code, reason, was_clean } => {
            assert_eq!(*code, 1005);
            assert_eq!(reason, "");
            assert!(*was_clean);
        }
        _ => panic!("expected the close event"),
    }
}

#[test]
fn glob_translation_is_exact() {
    assert_eq!(glob_to_regex("*.example.com/?x"), "^.*\\.example\\.com/.x$");
    assert_eq!(glob_to_regex(""), "^$");
}

#[test]
fn patterns_match_urls_through_the_regex_engine() {
    let all = RoutePattern::Glob("**".to_string());
    assert!(ws_matches(&all, "wss://anything/at/all"));

    let glob = RoutePattern::Glob("wss://api.example.com/*".to_string());
    assert!(ws_matches(&glob, "wss://api.example.com/feed"));
    assert!(!ws_matches(&glob, "wss://apiXexample.com/feed"));

    let rx = RoutePattern::Regex("^wss://[a-z]+/Feed$".to_string(), "i".to_string());
    assert!(ws_matches(&rx, "wss://host/feed"));
    let rx_cs = RoutePattern::Regex("^wss://[a-z]+/Feed$".to_string(), String::new());
    assert!(!ws_matches(&rx_cs, "wss://host/feed"));

    // A pattern that does not compile matches nothing.
    let broken = RoutePattern::Regex("(".to_string(), String::new());
    assert!(!ws_matches(&broken, "anything"));
}

#[test]
fn websocket_sides_pick_their_methods() {
    assert_eq!(send_method(Side::Page), "sendToPage");
    assert_eq!(send_method(Side::Server), "sendToServer");
    assert_eq!(close_method(Side::Page), "closePage");
    assert_eq!(close_method(Side::Server), "closeServer");
}
