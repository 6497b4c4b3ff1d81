//! The message envelopes of the wire protocol.
//!
//! A request carries `{guid, method, params, id, metadata}`. A message from
//! the driver is either a call result, addressed by id, or an event addressed
//! by target guid and method name; the method names `__create__` and
//! `__dispose__` mark the messages that grow and shrink the mirrored graph.

use vstd::prelude::*;

use crate::error::ErrorMessage;
use crate::json::{str_eq, JsonValue};

verus! {

/// One decoded message from the driver process.
pub enum Message {
    /// The result of the call with the given id: a value or a remote error.
    Response { id: u64, body: Result<JsonValue, ErrorMessage> },
    /// An event addressed to a node, a creation, or a disposal.
    Event { guid: String, method: String, params: JsonValue },
}

/// One request to be framed and written to the driver process.
pub struct RequestEnvelope {
    pub guid: String,
    pub method: String,
    pub params: JsonValue,
    pub metadata: JsonValue,
    pub id: u64,
}

/// The method name that announces a new node.
pub open spec fn create_method() -> Seq<char> {
    "__create__"@
}

/// The method name that announces a node's removal.
pub open spec fn dispose_method() -> Seq<char> {
    "__dispose__"@
}

/// Whether a method name announces a new node.
pub fn is_create_method(method: &str) -> (r: bool)
    ensures
        r == (method@ == create_method()),
{
    str_eq(method, "__create__")
}

/// Whether a method name announces a node's removal.
pub fn is_dispose_method(method: &str) -> (r: bool)
    ensures
        r == (method@ == dispose_method()),
{
    str_eq(method, "__dispose__")
}

} // verus!
