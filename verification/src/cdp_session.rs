//! The low-level protocol session node: raw commands and raw events.

use vstd::prelude::*;

use crate::emitter::Emitter;
use crate::error::Error;
use crate::json::{json_field, obj_fields, str_eq, JsonData, JsonValue};

verus! {

/// One raw event received on a session: a method name and its payload.
pub struct CdpEvent {
    pub method: String,
    pub params: JsonValue,
}

/// The parameters of a raw `send` command: `{method, params}`, the params
/// field present only when one was given.
pub fn send_params(method: &str, params: Option<JsonValue>) -> (r: JsonValue)
    ensures
        params is Some ==> r@ == JsonData::Obj(
            seq![("method"@, JsonData::Str(method@)), ("params"@, params->0@)],
        ),
        params is None ==> r@ == JsonData::Obj(seq![("method"@, JsonData::Str(method@))]),
{
    let with_method = JsonValue::obj_new().with_field("method", JsonValue::str_of(method));
    proof {
        assert(obj_fields(with_method@) =~= seq![("method"@, JsonData::Str(method@))]);
    }
    match params {
        Some(p) => {
            let r = with_method.with_field("params", p);
            proof {
                assert(obj_fields(r@) =~= seq![
                    ("method"@, JsonData::Str(method@)),
                    ("params"@, params->0@),
                ]);
            }
            r
        },
        None => with_method,
    }
}

/// The result field of a `send` command's response, if the driver sent one.
pub fn send_result(body: &JsonValue) -> (r: Option<&JsonValue>)
    ensures
        match r {
            Some(v) => json_field(body@, "result"@) == Some(v@),
            None => json_field(body@, "result"@) is None,
        },
{
    body.get("result")
}

/// Handle one event addressed to a session node: a `event` message carries
/// `{method, params}` and is forwarded to the node's subscribers; any other
/// method name is ignored. A malformed `event` payload is an error.
pub fn handle_event(
    events: &mut Emitter<CdpEvent>,
    method: &str,
    params: JsonValue,
) -> (r: Result<(), Error>)
    requires
        old(events).wf(),
    ensures
        final(events).wf(),
        final(events).subs() == old(events).subs(),
        final(events).log().len() > old(events).log().len() ==> final(events).log().drop_last()
            == old(events).log(),
        method@ != "event"@ ==> r is Ok && final(events).log() == old(events).log(),
        method@ == "event"@ ==> match json_field(params@, "method"@) {
            Some(JsonData::Str(m)) => {
                &&& r is Ok
                &&& final(events).log().len() == old(events).log().len() + 1
                &&& final(events).log().last().method@ == m
                &&& final(events).log().last().params@ == (match json_field(
                    params@,
                    "params"@,
                ) {
                    Some(p) => p,
                    None => JsonData::Null,
                })
            },
            _ => r is Err && final(events).log() == old(events).log(),
        },
{
    if !str_eq(method, "event") {
        return Ok(());
    }
    let inner_method: String = match params.get("method") {
        Some(v) => match v.as_str() {
            Some(s) => s.clone(),
            None => {
                return Err(Error::InvalidParams);
            },
        },
        None => {
            return Err(Error::InvalidParams);
        },
    };
    let inner_params: JsonValue = match params.into_field("params") {
        Some(v) => v,
        None => JsonValue::Null,
    };
    events.emit(CdpEvent { method: inner_method, params: inner_params });
    Ok(())
}

} // verus!
