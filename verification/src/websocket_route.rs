//! A routed websocket node: messages are relayed between the page side and
//! the server side, binary payloads crossing the protocol as base64 text.

use vstd::prelude::*;

use crate::b64::{base64_of, decode_base64, encode_base64};
use crate::emitter::Emitter;
use crate::error::Error;
use crate::json::{json_field, obj_fields, str_eq, JsonData, JsonValue};

verus! {

/// One websocket payload: text, or raw bytes.
pub enum Buffer {
    Text(String),
    Bytes(Vec<u8>),
}

/// Mathematical shape of a payload.
pub ghost enum BufferData {
    Text(Seq<char>),
    Bytes(Seq<u8>),
}

impl View for Buffer {
    type V = BufferData;

    open spec fn view(&self) -> BufferData {
        match self {
            Buffer::Text(s) => BufferData::Text(s@),
            Buffer::Bytes(b) => BufferData::Bytes(b@),
        }
    }
}

/// An event delivered to subscribers of one routed websocket.
pub enum WsEvent {
    MessageFromPage(Buffer),
    MessageFromServer(Buffer),
    CloseFromPage { code: i64, reason: String, was_clean: bool },
    CloseFromServer { code: i64, reason: String, was_clean: bool },
}

/// Mathematical shape of a websocket event.
pub ghost enum WsEventData {
    MessageFromPage(BufferData),
    MessageFromServer(BufferData),
    CloseFromPage { code: i64, reason: Seq<char>, was_clean: bool },
    CloseFromServer { code: i64, reason: Seq<char>, was_clean: bool },
}

impl View for WsEvent {
    type V = WsEventData;

    open spec fn view(&self) -> WsEventData {
        match self {
            WsEvent::MessageFromPage(b) => WsEventData::MessageFromPage(b@),
            WsEvent::MessageFromServer(b) => WsEventData::MessageFromServer(b@),
            WsEvent::CloseFromPage { code, reason, was_clean } => WsEventData::CloseFromPage {
                code: *code,
                reason: reason@,
                was_clean: *was_clean,
            },
            WsEvent::CloseFromServer { code, reason, was_clean } => WsEventData::CloseFromServer {
                code: *code,
                reason: reason@,
                was_clean: *was_clean,
            },
        }
    }
}

/// The `{message, isBase64}` parameters that carry one payload to the page
/// or to the server: text goes as it is, bytes as their base64 text.
pub fn message_params(buffer: &Buffer) -> (r: JsonValue)
    requires
        buffer matches Buffer::Bytes(b) ==> b@.len() < usize::MAX / 2,
    ensures
        r@ == JsonData::Obj(
            seq![
                (
                    "message"@,
                    JsonData::Str(
                        match buffer@ {
                            BufferData::Text(s) => s,
                            BufferData::Bytes(b) => base64_of(b),
                        },
                    ),
                ),
                ("isBase64"@, JsonData::Bool(buffer@ is Bytes)),
            ],
        ),
{
    let r = match buffer {
        Buffer::Text(s) => JsonValue::obj_new().with_str_field("message", s.as_str())
            .with_bool_field("isBase64", false),
        Buffer::Bytes(b) => {
            let encoded = encode_base64(b.as_slice());
            JsonValue::obj_new().with_str_field("message", encoded.as_str()).with_bool_field(
                "isBase64",
                true,
            )
        },
    };
    proof {
        assert(obj_fields(r@) =~= seq![
            (
                "message"@,
                JsonData::Str(
                    match buffer@ {
                        BufferData::Text(s) => s,
                        BufferData::Bytes(b) => base64_of(b),
                    },
                ),
            ),
            ("isBase64"@, JsonData::Bool(buffer@ is Bytes)),
        ]);
    }
    r
}

/// The fields of a close request: optional code and reason, and the clean
/// flag the engine always sends as true.
pub open spec fn close_fields(code: Option<i64>, reason: Option<Seq<char>>) -> Seq<
    (Seq<char>, JsonData),
> {
    let with_code: Seq<(Seq<char>, JsonData)> = match code {
        Some(c) => seq![("code"@, JsonData::Int(c))],
        None => Seq::empty(),
    };
    let with_reason: Seq<(Seq<char>, JsonData)> = match reason {
        Some(s) => with_code.push(("reason"@, JsonData::Str(s))),
        None => with_code,
    };
    with_reason.push(("wasClean"@, JsonData::Bool(true)))
}

/// The parameters of a close request for either side.
pub fn close_params(code: Option<i64>, reason: Option<&str>) -> (r: JsonValue)
    ensures
        r@ == JsonData::Obj(
            close_fields(
                code,
                match reason {
                    Some(s) => Some(s@),
                    None => None,
                },
            ),
        ),
{
    let r = JsonValue::obj_new().with_opt_int_field("code", code).with_opt_str_field(
        "reason",
        reason,
    ).with_bool_field("wasClean", true);
    proof {
        let rdata = match reason {
            Some(s) => Some(s@),
            None => None::<Seq<char>>,
        };
        assert(obj_fields(r@) =~= close_fields(code, rdata));
    }
    r
}

/// What one incoming websocket event means, per the wire fields: the payload
/// of a message event, decoded from base64 when flagged; the code, reason and
/// clean flag of a close event, with the defaults the protocol fixes.
pub open spec fn ws_message_of(params: JsonData) -> Result<BufferData, ()> {
    let message: Seq<char> = match json_field(params, "message"@) {
        Some(JsonData::Str(s)) => s,
        _ => Seq::empty(),
    };
    let is_base64 = json_field(params, "isBase64"@) == Some(JsonData::Bool(true));
    if is_base64 {
        if exists|b: Seq<u8>| message == base64_of(b) {
            Ok(BufferData::Bytes(choose|b: Seq<u8>| message == base64_of(b)))
        } else {
            Err(())
        }
    } else {
        Ok(BufferData::Text(message))
    }
}

/// The code of a close event; 1005 when the wire carried none.
pub open spec fn ws_close_code(params: JsonData) -> i64 {
    match json_field(params, "code"@) {
        Some(JsonData::Int(c)) => c,
        _ => 1005,
    }
}

/// The reason of a close event; empty when the wire carried none.
pub open spec fn ws_close_reason(params: JsonData) -> Seq<char> {
    match json_field(params, "reason"@) {
        Some(JsonData::Str(s)) => s,
        _ => Seq::empty(),
    }
}

/// The clean flag of a close event; true when the wire carried none.
pub open spec fn ws_close_clean(params: JsonData) -> bool {
    match json_field(params, "wasClean"@) {
        Some(JsonData::Bool(b)) => b,
        _ => true,
    }
}

fn parse_message_buffer(params: &JsonValue) -> (r: Result<Buffer, Error>)
    ensures
        match r {
            Ok(b) => ws_message_of(params@) == Ok::<BufferData, ()>(b@),
            Err(e) => ws_message_of(params@) is Err && e is InvalidBase64,
        },
{
    let message: String = match params.get("message") {
        Some(v) => match v.as_str() {
            Some(s) => s.clone(),
            None => String::new(),
        },
        None => String::new(),
    };
    let is_base64: bool = match params.get("isBase64") {
        Some(v) => match v.as_bool() {
            Some(b) => b,
            None => false,
        },
        None => false,
    };
    if is_base64 {
        match decode_base64(message.as_str()) {
            Ok(bytes) => Ok(Buffer::Bytes(bytes)),
            Err(e) => Err(Error::InvalidBase64),
        }
    } else {
        Ok(Buffer::Text(message))
    }
}

fn parse_close(params: &JsonValue) -> (r: (i64, String, bool))
    ensures
        r.0 == ws_close_code(params@),
        r.1@ == ws_close_reason(params@),
        r.2 == ws_close_clean(params@),
{
    let code: i64 = match params.get("code") {
        Some(v) => match v.as_i64() {
            Some(c) => c,
            None => 1005,
        },
        None => 1005,
    };
    let reason: String = match params.get("reason") {
        Some(v) => match v.as_str() {
            Some(s) => s.clone(),
            None => String::new(),
        },
        None => String::new(),
    };
    let was_clean: bool = match params.get("wasClean") {
        Some(v) => match v.as_bool() {
            Some(b) => b,
            None => true,
        },
        None => true,
    };
    (code, reason, was_clean)
}

/// Handle one event addressed to a routed websocket node: message events are
/// forwarded to subscribers with their payload decoded, close events with the
/// protocol's defaults filled in; an unknown method is ignored. A message
/// flagged base64 whose text does not decode is an error.
pub fn handle_event(
    events: &mut Emitter<WsEvent>,
    method: &str,
    params: &JsonValue,
) -> (r: Result<(), Error>)
    requires
        old(events).wf(),
    ensures
        final(events).wf(),
        final(events).subs() == old(events).subs(),
        final(events).log().len() > old(events).log().len() ==> final(events).log().drop_last()
            == old(events).log(),
        r matches Err(e) ==> e is InvalidBase64 && final(events).log() == old(events).log(),
        ({
            let m = method@;
            if m == "messageFromPage"@ {
                match ws_message_of(params@) {
                    Ok(b) => r is Ok && final(events).log().len() == old(events).log().len() + 1
                        && final(events).log().last()@ == WsEventData::MessageFromPage(b),
                    Err(_) => r is Err,
                }
            } else if m == "messageFromServer"@ {
                match ws_message_of(params@) {
                    Ok(b) => r is Ok && final(events).log().len() == old(events).log().len() + 1
                        && final(events).log().last()@ == WsEventData::MessageFromServer(b),
                    Err(_) => r is Err,
                }
            } else if m == "closePage"@ {
                r is Ok && final(events).log().len() == old(events).log().len() + 1 && final(events).log().last()@ == (WsEventData::CloseFromPage {
                    code: ws_close_code(params@),
                    reason: ws_close_reason(params@),
                    was_clean: ws_close_clean(params@),
                })
            } else if m == "closeServer"@ {
                r is Ok && final(events).log().len() == old(events).log().len() + 1 && final(events).log().last()@ == (WsEventData::CloseFromServer {
                    code: ws_close_code(params@),
                    reason: ws_close_reason(params@),
                    was_clean: ws_close_clean(params@),
                })
            } else {
                r is Ok && final(events).log() == old(events).log()
            }
        }),
{
    if str_eq(method, "messageFromPage") {
        let buffer = parse_message_buffer(params)?;
        events.emit(WsEvent::MessageFromPage(buffer));
        Ok(())
    } else if str_eq(method, "messageFromServer") {
        let buffer = parse_message_buffer(params)?;
        events.emit(WsEvent::MessageFromServer(buffer));
        Ok(())
    } else if str_eq(method, "closePage") {
        let (code, reason, was_clean) = parse_close(params);
        events.emit(WsEvent::CloseFromPage { code, reason, was_clean });
        Ok(())
    } else if str_eq(method, "closeServer") {
        let (code, reason, was_clean) = parse_close(params);
        events.emit(WsEvent::CloseFromServer { code, reason, was_clean });
        Ok(())
    } else {
        Ok(())
    }
}

/// Which side of the routed socket a handle speaks for.
#[derive(Clone, Copy, PartialEq, Eq, Structural, Debug)]
pub enum Side {
    Page,
    Server,
}

/// The method that carries a payload to the given side.
pub fn send_method(side: Side) -> (r: &'static str)
    ensures
        side == Side::Page ==> r@ == "sendToPage"@,
        side == Side::Server ==> r@ == "sendToServer"@,
{
    match side {
        Side::Page => "sendToPage",
        Side::Server => "sendToServer",
    }
}

/// The method that closes the given side.
pub fn close_method(side: Side) -> (r: &'static str)
    ensures
        side == Side::Page ==> r@ == "closePage"@,
        side == Side::Server ==> r@ == "closeServer"@,
{
    match side {
        Side::Page => "closePage",
        Side::Server => "closeServer",
    }
}

impl crate::context::Context {
    /// Connect a routed websocket to the server, at most once: the node's
    /// connected flag flips, the `connect` request is registered like any
    /// other call, and a second attempt is refused without touching anything.
    pub fn ws_connect(&mut self, guid: &str) -> (r: Result<
        crate::protocol::RequestEnvelope,
        Error,
    >)
        requires
            old(self).wf(),
            old(self).last_id < u64::MAX,
        ensures
            final(self).wf(),
            match r {
                Ok(env) => ({
                    let i = crate::context::index_of_guid(old(self).objects@, guid@);
                    &&& crate::context::has_guid(old(self).objects@, guid@)
                    &&& old(self).objects@[i] is WebSocketRoute
                    &&& !old(self).objects@[i].ws_connected()
                    &&& final(self).objects@.len() == old(self).objects@.len()
                    &&& (forall|k: int|
                        0 <= k < old(self).objects@.len() && k != i ==> final(self).objects@[k]
                            == #[trigger] old(self).objects@[k])
                    &&& final(self).objects@[i] is WebSocketRoute
                    &&& final(self).objects@[i].channel_spec() == old(self).objects@[
                        i
                    ].channel_spec()
                    &&& final(self).objects@[i].ws_url() == old(self).objects@[i].ws_url()
                    &&& final(self).objects@[i].ws_log() == old(self).objects@[i].ws_log()
                    &&& final(self).objects@[i].ws_subs() == old(self).objects@[i].ws_subs()
                    &&& final(self).objects@[i].ws_connected()
                    &&& env.guid@ == guid@
                    &&& env.method@ == "connect"@
                    &&& env.params@ == JsonData::Obj(Seq::<(Seq<char>, JsonData)>::empty())
                    &&& env.id == old(self).last_id + 1
                    &&& final(self).last_id == env.id
                    &&& final(self).callbacks@ == old(self).callbacks@.push(
                        crate::context::PendingCall { id: env.id, receiver_alive: true },
                    )
                }),
                Err(e) => {
                    &&& final(self).objects@ == old(self).objects@
                    &&& final(self).callbacks@ == old(self).callbacks@
                    &&& final(self).last_id == old(self).last_id
                    &&& (if crate::context::has_guid(old(self).objects@, guid@) && old(
                        self,
                    ).objects@[crate::context::index_of_guid(old(self).objects@, guid@)]
                        is WebSocketRoute {
                        e is InvalidParams && old(self).objects@[crate::context::index_of_guid(
                            old(self).objects@,
                            guid@,
                        )].ws_connected()
                    } else {
                        e is ObjectNotFound
                    })
                },
            },
    {
        let i = match self.find_index(guid) {
            Some(i) => i,
            None => {
                return Err(Error::ObjectNotFound);
            },
        };
        proof {
            crate::context::lemma_guid_index_unique(self.objects@, guid@, i as int);
        }
        if !self.objects[i].is_ws_route() {
            return Err(Error::ObjectNotFound);
        }
        let o = self.objects.remove(i);
        match o {
            crate::remote::RemoteObject::WebSocketRoute { channel, url, connected, events } => {
                if connected {
                    let o2 = crate::remote::RemoteObject::WebSocketRoute {
                        channel,
                        url,
                        connected,
                        events,
                    };
                    self.objects.insert(i, o2);
                    proof {
                        assert(self.objects@ =~= old(self).objects@);
                    }
                    return Err(Error::InvalidParams);
                }
                let o2 = crate::remote::RemoteObject::WebSocketRoute {
                    channel,
                    url,
                    connected: true,
                    events,
                };
                self.objects.insert(i, o2);
                proof {
                    assert(self.objects@ =~= old(self).objects@.update(
                        i as int,
                        self.objects@[i as int],
                    ));
                    crate::context::lemma_wf_update_same_ids(
                        old(self).objects@,
                        i as int,
                        self.objects@[i as int],
                    );
                }
                proof {
                    assert(self.objects@[i as int].guid_data() == guid@);
                    assert(crate::context::has_guid(self.objects@, guid@));
                }
                self.send_message(guid, "connect", JsonValue::obj_new())
            },
            other => {
                self.objects.insert(i, other);
                proof {
                    assert(false);
                }
                Err(Error::ObjectNotFound)
            },
        }
    }
}

} // verus!
