//! The engine's error taxonomy.
//!
//! Transport and decode failures are fatal: they terminate the connection and
//! fail every outstanding call uniformly. A remote-reported application error
//! is delivered only to the originating caller. A guid that no longer
//! resolves is benign at the API boundary (a stale handle) but fatal when met
//! in the middle of dispatch.

use vstd::prelude::*;

verus! {

/// A structured error reported by the remote process for one call.
#[derive(Debug)]
pub struct ErrorMessage {
    pub name: String,
    pub message: String,
    pub stack: String,
}

/// Everything that can go wrong inside the engine.
#[derive(Debug)]
pub enum Error {
    /// Reading from or writing to the driver process failed.
    Io(String),
    /// The bootstrap handshake failed.
    InitializationError,
    /// The connection is gone; delivered to pending calls on teardown.
    ReceiverClosed,
    /// A message did not have the shape its method requires.
    InvalidParams,
    /// A guid did not resolve in the strong table.
    ObjectNotFound,
    /// A frame could not be decoded; fatal to the read loop.
    Decode(String),
    /// An internal channel was closed before its message was sent.
    Channel,
    /// A response named a call id that was never registered: protocol desync.
    CallbackNotFound,
    /// The remote process answered a call with an error.
    ErrorResponded(ErrorMessage),
    /// A payload that had to be a JSON object was not.
    NotObject,
    /// A payload that had to carry a guid did not.
    GuidNotFound,
    /// A base64 field did not decode.
    InvalidBase64,
    /// A creation message named a type tag outside the closed registry.
    UnknownType(String),
    /// A call settled neither by response nor by creation event in time.
    Timeout,
}

impl Error {
    /// A short, stable description of the error.
    pub fn message(&self) -> (r: String)
        ensures
            self is ErrorResponded ==> r@ == self->ErrorResponded_0.message@,
    {
        match self {
            Error::Io(m) => m.clone(),
            Error::InitializationError => "failed to initialize".to_owned(),
            Error::ReceiverClosed => "disconnected".to_owned(),
            Error::InvalidParams => "invalid message".to_owned(),
            Error::ObjectNotFound => "object not found".to_owned(),
            Error::Decode(m) => m.clone(),
            Error::Channel => "failed to send".to_owned(),
            Error::CallbackNotFound => "callback not found".to_owned(),
            Error::ErrorResponded(e) => e.message.clone(),
            Error::NotObject => "value is not an object".to_owned(),
            Error::GuidNotFound => "guid not found".to_owned(),
            Error::InvalidBase64 => "invalid base64".to_owned(),
            Error::UnknownType(t) => t.clone(),
            Error::Timeout => "timed out".to_owned(),
        }
    }
}

} // verus!
