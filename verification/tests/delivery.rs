//! Ordinary events delivered through dispatch: route selection, page
//! bookkeeping, emitter subscriptions, and session events.

use playwright_core::browser_context::{ContextEvent, EventType, RoutePattern};
use playwright_core::context::{Context, HostAction};
use playwright_core::error::Error;
use playwright_core::json::JsonValue;
use playwright_core::protocol::Message;
use playwright_core::remote::RemoteObject;

fn creation_params(typ: &str, guid: &str) -> JsonValue {
    JsonValue::obj_new()
        .with_str_field("type", typ)
        .with_str_field("guid", guid)
        .with_field("initializer", JsonValue::obj_new())
}

fn browser_creation_params(guid: &str, version: &str) -> JsonValue {
    JsonValue::obj_new()
        .with_str_field("type", "Browser")
        .with_str_field("guid", guid)
        .with_field(
            "initializer",
            JsonValue::obj_new().with_str_field("version", version),
        )
}

fn engine_with_context() -> Context {
    let mut ctx = Context::new();
    ctx.dispatch(Message::Event {
        guid: String::new(),
        method: "__create__".to_string(),
        params: browser_creation_params("browser-1", "99.0"),
    })
    .unwrap();
    ctx.dispatch(Message::Event {
        guid: "browser-1".to_string(),
        method: "__create__".to_string(),
        params: creation_params("BrowserContext", "bc-1"),
    })
    .unwrap();
    ctx
}

fn deliver(ctx: &mut Context, guid: &str, method: &str, params: JsonValue) -> Vec<HostAction> {
    ctx.dispatch(Message::Event {
        guid: guid.to_string(),
        method: method.to_string(),
        params,
    })
    .expect("delivery itself never fails on a live node")
}

fn guid_payload(key: &str, guid: &str) -> JsonValue {
    JsonValue::obj_new().with_field(key, JsonValue::obj_new().with_str_field("guid", guid))
}

#[test]
fn route_events_pick_the_newest_handler_and_count_down() {
    let mut ctx = engine_with_context();
    deliver(
        &mut ctx,
        "browser-1",
        "__create__",
        creation_params("Route", "route-1"),
    );

    // No handler registered: the route falls through.
    let acts = deliver(&mut ctx, "bc-1", "route", guid_payload("route", "route-1"));
    assert!(matches!(&acts[0], HostAction::FallBackRoute { route } if route == "route-1"));

    // Two handlers; the most recent wins, and a bounded one counts down.
    let msg = ctx
        .bc_add_route("bc-1", RoutePattern::Glob("**".to_string()), None, 11)
        .expect("context is live");
    assert!(msg.get("patterns").is_some());
    ctx.bc_add_route("bc-1", RoutePattern::Glob("*.io/*".to_string()), Some(2), 22)
        .expect("context is live");

    let acts = deliver(&mut ctx, "bc-1", "route", guid_payload("route", "route-1"));
    assert!(matches!(&acts[0], HostAction::RunRouteHandler { handler: 22, route } if route == "route-1"));
    let acts = deliver(&mut ctx, "bc-1", "route", guid_payload("route", "route-1"));
    assert!(matches!(&acts[0], HostAction::RunRouteHandler { handler: 22, .. }));
    // The bounded handler is used up; the older one takes over.
    let acts = deliver(&mut ctx, "bc-1", "route", guid_payload("route", "route-1"));
    assert!(matches!(&acts[0], HostAction::RunRouteHandler { handler: 11, .. }));
}

#[test]
fn page_events_register_pages_and_reach_only_later_subscribers() {
    let mut ctx = engine_with_context();
    deliver(&mut ctx, "browser-1", "__create__", creation_params("Page", "page-1"));
    deliver(&mut ctx, "browser-1", "__create__", creation_params("Page", "page-2"));

    // An event arrives before anyone subscribes.
    deliver(&mut ctx, "bc-1", "page", guid_payload("page", "page-1"));
    let sub = ctx.bc_subscribe("bc-1", 8).expect("context is live");
    assert!(ctx.bc_poll("bc-1", sub).expect("live").is_none());

    // The next one is seen.
    deliver(&mut ctx, "bc-1", "page", guid_payload("page", "page-2"));
    let idx = ctx.bc_poll("bc-1", sub).expect("live").expect("one event");
    match ctx.find_object("bc-1") {
        Some(RemoteObject::BrowserContext { pages, events, .. }) => {
            assert_eq!(pages.len(), 2);
            assert_eq!(pages[0], "page-1");
            assert_eq!(pages[1], "page-2");
            match events.event(idx) {
                ContextEvent::Page(g) => assert_eq!(g, "page-2"),
                _ => panic!("expected the page event"),
            }
        }
        _ => panic!("context node must be live"),
    }

    // An event naming a gone page is a handler error, not a halt.
    let acts = deliver(&mut ctx, "bc-1", "page", guid_payload("page", "page-9"));
    assert!(matches!(&acts[0], HostAction::HandlerError { error: Error::ObjectNotFound, .. }));
}

#[test]
fn request_endings_mark_the_request_node() {
    let mut ctx = engine_with_context();
    deliver(&mut ctx, "browser-1", "__create__", creation_params("Request", "req-1"));
    let params = guid_payload("request", "req-1")
        .with_int_field("responseEndTiming", 42)
        .with_str_field("failureText", "net::ERR_FAILED");
    let acts = deliver(&mut ctx, "bc-1", "requestfailed", params);
    assert!(acts.is_empty());
    match ctx.find_object("req-1") {
        Some(RemoteObject::Request { failure, response_end, .. }) => {
            assert_eq!(failure.as_deref(), Some("net::ERR_FAILED"));
            assert_eq!(response_end.as_ref().and_then(|v| v.as_i64()), Some(42));
        }
        _ => panic!("request node must be live"),
    }
}

#[test]
fn page_errors_reach_the_page_and_the_context() {
    let mut ctx = engine_with_context();
    deliver(&mut ctx, "browser-1", "__create__", creation_params("Page", "page-1"));
    let params = JsonValue::obj_new()
        .with_field("page", JsonValue::obj_new().with_str_field("guid", "page-1"))
        .with_field(
            "error",
            JsonValue::obj_new().with_field(
                "error",
                JsonValue::obj_new()
                    .with_str_field("name", "Error")
                    .with_str_field("message", "broke"),
            ),
        );
    let acts = deliver(&mut ctx, "bc-1", "pageError", params);
    assert!(acts.is_empty());
    match ctx.find_object("page-1") {
        Some(RemoteObject::Page { events, .. }) => {
            assert_eq!(events.emitted(), 1);
            let playwright_core::page::PageEvent::PageError(text) = events.event(0);
            assert_eq!(text, "Error: broke");
        }
        _ => panic!("page node must be live"),
    }
    match ctx.find_object("bc-1") {
        Some(RemoteObject::BrowserContext { events, .. }) => {
            assert_eq!(events.emitted(), 1);
            match events.event(0) {
                ContextEvent::WebError { page, error } => {
                    assert_eq!(page.as_deref(), Some("page-1"));
                    assert_eq!(error, "Error: broke");
                }
                _ => panic!("expected the error event"),
            }
        }
        _ => panic!("context node must be live"),
    }
}

#[test]
fn websocket_routes_match_registered_patterns() {
    let mut ctx = engine_with_context();
    let params = JsonValue::obj_new()
        .with_str_field("type", "WebSocketRoute")
        .with_str_field("guid", "ws-1")
        .with_field(
            "initializer",
            JsonValue::obj_new().with_str_field("url", "wss://api.example.com/feed"),
        );
    deliver(&mut ctx, "bc-1", "__create__", params);

    // No pattern: the socket connects straight to the server.
    let acts = deliver(&mut ctx, "bc-1", "webSocketRoute", guid_payload("route", "ws-1"));
    assert!(matches!(&acts[0], HostAction::ConnectWebSocketToServer { route } if route == "ws-1"));

    // A matching pattern routes to its handler.
    ctx.bc_add_ws_route("bc-1", RoutePattern::Glob("wss://api.example.com/*".to_string()), 7)
        .expect("context is live");
    let acts = deliver(&mut ctx, "bc-1", "webSocketRoute", guid_payload("route", "ws-1"));
    assert!(matches!(&acts[0], HostAction::RunWebSocketRouteHandler { handler: 7, route } if route == "ws-1"));
}

#[test]
fn session_events_reach_session_subscribers() {
    let mut ctx = engine_with_context();
    deliver(&mut ctx, "bc-1", "__create__", creation_params("CDPSession", "cdp-1"));
    let params = JsonValue::obj_new()
        .with_str_field("method", "Network.loadingFinished")
        .with_field("params", JsonValue::obj_new().with_int_field("encodedDataLength", 12));
    let acts = deliver(&mut ctx, "cdp-1", "event", params);
    assert!(acts.is_empty());
    match ctx.find_object("cdp-1") {
        Some(RemoteObject::CdpSession { events, .. }) => {
            assert_eq!(events.emitted(), 1);
            let ev = events.event(0);
            assert_eq!(ev.method, "Network.loadingFinished");
            assert_eq!(
                ev.params.get("encodedDataLength").and_then(|v| v.as_i64()),
                Some(12)
            );
        }
        _ => panic!("session node must be live"),
    }
}

#[test]
fn closing_a_context_unregisters_it_from_its_browser() {
    let mut ctx = engine_with_context();
    match ctx.find_object("browser-1") {
        Some(RemoteObject::Browser { contexts, .. }) => assert_eq!(contexts.len(), 1),
        _ => panic!("browser must be live"),
    }
    let acts = deliver(&mut ctx, "bc-1", "close", JsonValue::obj_new());
    assert!(acts.is_empty());
    match ctx.find_object("browser-1") {
        Some(RemoteObject::Browser { contexts, .. }) => assert!(contexts.is_empty()),
        _ => panic!("browser must be live"),
    }
    match ctx.find_object("bc-1") {
        Some(RemoteObject::BrowserContext { events, .. }) => {
            assert_eq!(events.emitted(), 1);
            assert!(matches!(events.event(0), ContextEvent::Close));
        }
        _ => panic!("context node must be live"),
    }
}

#[test]
fn event_kinds_classify_events() {
    assert_eq!(ContextEvent::Close.event_type(), EventType::Close);
    assert_eq!(ContextEvent::Page("p".to_string()).event_type(), EventType::Page);
    assert_eq!(
        ContextEvent::WebError { page: None, error: "e".to_string() }.event_type(),
        EventType::WebError
    );
}

#[test]
fn routed_sockets_connect_at_most_once() {
    let mut ctx = engine_with_context();
    let params = JsonValue::obj_new()
        .with_str_field("type", "WebSocketRoute")
        .with_str_field("guid", "ws-1")
        .with_field(
            "initializer",
            JsonValue::obj_new().with_str_field("url", "wss://api.example.com/feed"),
        );
    deliver(&mut ctx, "bc-1", "__create__", params);

    let env = ctx.ws_connect("ws-1").expect("first connect goes through");
    assert_eq!(env.guid, "ws-1");
    assert_eq!(env.method, "connect");
    match ctx.find_object("ws-1") {
        Some(RemoteObject::WebSocketRoute { connected, .. }) => assert!(*connected),
        _ => panic!("socket node must be live"),
    }

    // The second attempt is refused without touching anything.
    assert!(matches!(ctx.ws_connect("ws-1"), Err(Error::InvalidParams)));
    assert!(matches!(ctx.ws_connect("nobody"), Err(Error::ObjectNotFound)));
}
