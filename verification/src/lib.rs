//! Client-side engine for driving a long-lived driver process over a framed,
//! bidirectional JSON protocol, while mirroring a remote, tree-shaped object
//! graph whose nodes are created and destroyed by messages arriving from that
//! process.
//!
//! The crate is organised around a pure core: all protocol decisions —
//! correlating concurrent calls with out-of-order responses, mutating the
//! mirrored graph under creation and disposal events, and recovering when a
//! call's response and its creation event race — are functions from state and
//! message to new state and actions. A thin host layer outside this crate
//! performs the process I/O and carries the actions out.

pub mod b64;
pub mod api_request_context;
pub mod api_response;
pub mod artifact;
pub mod browser;
pub mod browser_context;
pub mod cdp_session;
pub mod dialog;
pub mod driver;
pub mod connection;
pub mod context;
pub mod emitter;
pub mod error;
pub mod json;
pub mod laws;
pub mod locator;
pub mod page;
pub mod protocol;
pub mod remote;
pub mod rx;
pub mod strutil;
pub mod tracing;
pub mod web_error;
pub mod websocket_route;
pub mod transport;

use vstd::prelude::*;

verus! {

} // verus!
