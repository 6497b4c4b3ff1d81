//! The engine's core behaviour: call correlation, graph mutation, teardown,
//! and the creation race.

use playwright_core::connection::Connection;
use playwright_core::context::{Context, HostAction};
use playwright_core::browser::NewContextOutcome;
use playwright_core::error::{Error, ErrorMessage};
use playwright_core::json::JsonValue;
use playwright_core::protocol::Message;
use playwright_core::remote::RemoteKind;

fn creation_params(typ: &str, guid: &str) -> JsonValue {
    JsonValue::obj_new()
        .with_str_field("type", typ)
        .with_str_field("guid", guid)
        .with_field("initializer", JsonValue::obj_new())
}

fn browser_creation_params(guid: &str, version: &str) -> JsonValue {
    JsonValue::obj_new()
        .with_str_field("type", "Browser")
        .with_str_field("guid", guid)
        .with_field(
            "initializer",
            JsonValue::obj_new().with_str_field("version", version),
        )
}

fn create(ctx: &mut Context, parent: &str, params: JsonValue) -> Vec<HostAction> {
    ctx.dispatch(Message::Event {
        guid: parent.to_string(),
        method: "__create__".to_string(),
        params,
    })
    .expect("creation must succeed")
}

#[test]
fn responses_resolve_their_own_calls_in_any_order() {
    let mut ctx = Context::new();
    let env1 = ctx
        .send_message("", "first", JsonValue::obj_new())
        .expect("root resolves");
    let env2 = ctx
        .send_message("", "second", JsonValue::obj_new())
        .expect("root resolves");
    assert_eq!(env1.id, 1);
    assert_eq!(env2.id, 2);

    // Deliver the second response first.
    let acts2 = ctx
        .dispatch(Message::Response {
            id: env2.id,
            body: Ok(JsonValue::Str("two".to_string())),
        })
        .expect("known id");
    assert_eq!(acts2.len(), 1);
    match &acts2[0] {
        HostAction::Resolve { id, body } => {
            assert_eq!(*id, 2);
            match body {
                Ok(JsonValue::Str(s)) => assert_eq!(s, "two"),
                _ => panic!("wrong payload"),
            }
        }
        _ => panic!("expected a resolution"),
    }

    let acts1 = ctx
        .dispatch(Message::Response {
            id: env1.id,
            body: Ok(JsonValue::Str("one".to_string())),
        })
        .expect("known id");
    match &acts1[0] {
        HostAction::Resolve { id, body } => {
            assert_eq!(*id, 1);
            match body {
                Ok(JsonValue::Str(s)) => assert_eq!(s, "one"),
                _ => panic!("wrong payload"),
            }
        }
        _ => panic!("expected a resolution"),
    }
}

#[test]
fn response_for_dropped_future_is_discarded() {
    let mut ctx = Context::new();
    let env = ctx
        .send_message("", "work", JsonValue::obj_new())
        .expect("root resolves");
    // The caller's future goes away before the response arrives.
    ctx.abandon_call(env.id);
    let acts = ctx
        .dispatch(Message::Response {
            id: env.id,
            body: Ok(JsonValue::Null),
        })
        .expect("discard, not an error");
    assert_eq!(acts.len(), 1);
    match &acts[0] {
        HostAction::DiscardResult { id } => assert_eq!(*id, env.id),
        _ => panic!("expected the result to be discarded"),
    }
}

#[test]
fn unknown_response_id_is_a_desync() {
    let mut ctx = Context::new();
    let r = ctx.dispatch(Message::Response {
        id: 7,
        body: Ok(JsonValue::Null),
    });
    assert!(matches!(r, Err(Error::CallbackNotFound)));
}

#[test]
fn notify_closed_fails_all_pending_and_clears_the_table() {
    let mut ctx = Context::new();
    let a = ctx.send_message("", "a", JsonValue::obj_new()).unwrap();
    let b = ctx.send_message("", "b", JsonValue::obj_new()).unwrap();
    let c = ctx.send_message("", "c", JsonValue::obj_new()).unwrap();
    let failed = ctx.notify_closed();
    let ids: Vec<u64> = failed.iter().map(|p| p.id).collect();
    assert_eq!(ids, vec![a.id, b.id, c.id]);
    assert_eq!(ctx.object_count(), 0);
    assert!(ctx.find_object("").is_none());
}

#[test]
fn disposal_removes_the_whole_subtree_bottom_up() {
    let mut ctx = Context::new();
    create(&mut ctx, "", creation_params("Playwright", "pw"));
    create(&mut ctx, "pw", creation_params("Page", "page-1"));
    create(&mut ctx, "page-1", creation_params("Frame", "frame-1"));
    create(&mut ctx, "frame-1", creation_params("Frame", "frame-2"));
    assert_eq!(ctx.object_count(), 5);

    // Depth-two subtree under the page: three nodes go, root and pw stay.
    ctx.dispatch(Message::Event {
        guid: "page-1".to_string(),
        method: "__dispose__".to_string(),
        params: JsonValue::obj_new(),
    })
    .expect("disposal never errors");
    assert_eq!(ctx.object_count(), 2);
    assert!(ctx.find_object("page-1").is_none());
    assert!(ctx.find_object("frame-1").is_none());
    assert!(ctx.find_object("frame-2").is_none());
    assert!(ctx.find_object("pw").is_some());

    // No handler fires for any of them afterwards: an event addressed to a
    // removed guid is a hard error, not a delivery.
    let r = ctx.dispatch(Message::Event {
        guid: "frame-2".to_string(),
        method: "ping".to_string(),
        params: JsonValue::obj_new(),
    });
    assert!(matches!(r, Err(Error::ObjectNotFound)));
}

#[test]
fn creation_under_unknown_parent_rejected_without_mutation() {
    let mut ctx = Context::new();
    let before = ctx.object_count();
    let r = ctx.dispatch(Message::Event {
        guid: "nobody".to_string(),
        method: "__create__".to_string(),
        params: creation_params("Page", "page-9"),
    });
    assert!(matches!(r, Err(Error::ObjectNotFound)));
    assert_eq!(ctx.object_count(), before);
    assert!(ctx.find_object("page-9").is_none());
}

#[test]
fn unknown_creation_tag_is_a_hard_error() {
    let mut ctx = Context::new();
    let r = ctx.dispatch(Message::Event {
        guid: "".to_string(),
        method: "__create__".to_string(),
        params: creation_params("Escalator", "x-1"),
    });
    assert!(matches!(r, Err(Error::UnknownType(_))));
    assert_eq!(ctx.object_count(), 1);
}

#[test]
fn creation_race_event_settles_caller_and_response_is_absorbed() {
    let mut ctx = Context::new();
    create(&mut ctx, "", browser_creation_params("browser-1", "99.0"));

    // The caller snapshots existing contexts, sends, and arms the liaison.
    let existing: Vec<String> = Vec::new();
    let env = ctx
        .send_message("browser-1", "newContext", JsonValue::obj_new())
        .expect("browser is live");
    ctx.set_pending_context("browser-1").expect("browser is live");

    // The creation event outruns the response: dispatch hands the new
    // context straight to the waiting caller.
    let acts = create(&mut ctx, "browser-1", creation_params("BrowserContext", "ctx-1"));
    assert_eq!(acts.len(), 1);
    let handed = match &acts[0] {
        HostAction::NotifyPendingContext { browser, context } => {
            assert_eq!(browser, "browser-1");
            context.clone()
        }
        _ => panic!("expected the liaison to fire"),
    };

    // The caller resolves through the event path with the correct object.
    let got = ctx
        .new_context_settle("browser-1", &existing, NewContextOutcome::CreationEvent(handed))
        .expect("event path settles");
    assert_eq!(got, "ctx-1");
    match ctx.find_object("ctx-1") {
        Some(o) => assert_eq!(o.kind_of(), RemoteKind::BrowserContext),
        None => panic!("context must be live"),
    }

    // The caller is done; its future is gone.
    ctx.abandon_call(env.id);

    // The late response neither double-resolves nor errors: it is absorbed.
    let acts = ctx
        .dispatch(Message::Response {
            id: env.id,
            body: Ok(JsonValue::obj_new()
                .with_field("context", JsonValue::obj_new().with_str_field("guid", "ctx-1"))),
        })
        .expect("the late response is not an error");
    assert!(matches!(&acts[0], HostAction::DiscardResult { id } if *id == env.id));

    // A second liaison never fires from the same arming: it was one-shot.
    let acts = create(&mut ctx, "browser-1", creation_params("BrowserContext", "ctx-2"));
    assert!(acts.is_empty());
}

#[test]
fn fallback_finds_context_in_three_tiers() {
    let mut ctx = Context::new();
    create(&mut ctx, "", browser_creation_params("browser-1", "99.0"));

    // No context anywhere: the call times out.
    let existing: Vec<String> = Vec::new();
    let r = ctx.fallback_find_context("browser-1", &existing);
    assert!(matches!(r, Err(Error::Timeout)));

    // A context created since the call began is found and registered.
    create(&mut ctx, "browser-1", creation_params("BrowserContext", "ctx-a"));
    let got = ctx
        .fallback_find_context("browser-1", &existing)
        .expect("registered context is found");
    assert_eq!(got, "ctx-a");

    // With that one already known before the call, the child scan finds it.
    let existing = vec!["ctx-a".to_string()];
    let got = ctx
        .fallback_find_context("browser-1", &existing)
        .expect("child scan finds it");
    assert_eq!(got, "ctx-a");
}

#[test]
fn settle_by_response_registers_the_context() {
    let mut ctx = Context::new();
    create(&mut ctx, "", browser_creation_params("browser-1", "99.0"));
    create(&mut ctx, "browser-1", creation_params("BrowserContext", "ctx-1"));
    let existing: Vec<String> = Vec::new();
    let body = JsonValue::obj_new()
        .with_field("context", JsonValue::obj_new().with_str_field("guid", "ctx-1"));
    let got = ctx
        .new_context_settle("browser-1", &existing, NewContextOutcome::Response(Ok(body)))
        .expect("response path settles");
    assert_eq!(got, "ctx-1");
}

#[test]
fn settle_by_remote_error_fails_the_call() {
    let mut ctx = Context::new();
    create(&mut ctx, "", browser_creation_params("browser-1", "99.0"));
    let existing: Vec<String> = Vec::new();
    let em = ErrorMessage {
        name: "Error".to_string(),
        message: "boom".to_string(),
        stack: String::new(),
    };
    let r = ctx.new_context_settle(
        "browser-1",
        &existing,
        NewContextOutcome::Response(Err(em)),
    );
    match r {
        Err(Error::ErrorResponded(em)) => assert_eq!(em.message, "boom"),
        _ => panic!("expected the remote error"),
    }
}

#[test]
fn eof_is_connection_closed_not_retry() {
    let mut conn = Connection::new();
    let r = conn.on_read(playwright_core::connection::ReadEvent::Eof);
    assert!(matches!(r, Err(Error::ReceiverClosed)));
    let r = conn.on_read(playwright_core::connection::ReadEvent::Failure("broken".to_string()));
    assert!(matches!(r, Err(Error::Io(_))));
}

#[test]
fn send_initialize_addresses_the_root() {
    let mut conn = Connection::new();
    let env = conn
        .send_initialize(JsonValue::obj_new().with_str_field("sdkLanguage", "javascript"))
        .expect("the root is always there");
    assert_eq!(env.guid, "");
    assert_eq!(env.method, "initialize");
    assert_eq!(env.id, 1);
}

#[test]
fn duplicate_guid_is_refused() {
    let mut ctx = Context::new();
    create(&mut ctx, "", creation_params("Page", "page-1"));
    let r = ctx.dispatch(Message::Event {
        guid: "".to_string(),
        method: "__create__".to_string(),
        params: creation_params("Page", "page-1"),
    });
    assert!(matches!(r, Err(Error::InvalidParams)));
    assert_eq!(ctx.object_count(), 2);
}

#[test]
fn malformed_creation_payload_is_a_decode_error() {
    let mut ctx = Context::new();
    let r = ctx.dispatch(Message::Event {
        guid: String::new(),
        method: "__create__".to_string(),
        params: JsonValue::obj_new().with_str_field("guid", "x-1"),
    });
    assert!(matches!(r, Err(Error::Decode(_))));
    assert_eq!(ctx.object_count(), 1);
}

#[test]
fn settle_without_a_named_context_is_guid_not_found() {
    let mut ctx = Context::new();
    create(&mut ctx, "", browser_creation_params("browser-1", "99.0"));
    let existing: Vec<String> = Vec::new();
    let r = ctx.new_context_settle(
        "browser-1",
        &existing,
        NewContextOutcome::Response(Ok(JsonValue::obj_new())),
    );
    assert!(matches!(r, Err(Error::GuidNotFound)));
}

#[test]
fn settle_on_deadline_runs_the_fallback_and_disarms_the_liaison() {
    let mut ctx = Context::new();
    create(&mut ctx, "", browser_creation_params("browser-1", "99.0"));
    ctx.set_pending_context("browser-1").expect("browser is live");

    // Nothing was created: the deadline path times the call out, and the
    // liaison is disarmed even then.
    let existing: Vec<String> = Vec::new();
    let r = ctx.new_context_settle("browser-1", &existing, NewContextOutcome::Deadline);
    assert!(matches!(r, Err(Error::Timeout)));
    match ctx.find_object("browser-1") {
        Some(playwright_core::remote::RemoteObject::Browser { pending_context, .. }) => {
            assert!(!*pending_context)
        }
        _ => panic!("browser must be live"),
    }

    // With a context created meanwhile, the same path recovers and registers it.
    create(&mut ctx, "browser-1", creation_params("BrowserContext", "ctx-1"));
    let got = ctx
        .new_context_settle("browser-1", &existing, NewContextOutcome::LiaisonDropped)
        .expect("the fallback finds it");
    assert_eq!(got, "ctx-1");
    match ctx.find_object("browser-1") {
        Some(playwright_core::remote::RemoteObject::Browser { contexts, .. }) => {
            assert_eq!(contexts.last().map(|s| s.as_str()), Some("ctx-1"))
        }
        _ => panic!("browser must be live"),
    }
}
