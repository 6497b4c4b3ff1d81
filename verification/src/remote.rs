//! The addressable node: a channel record plus the closed set of concrete
//! proxy types built over it.
//!
//! Every node carries its guid, its parent's guid (none only for the root),
//! and the initializer payload it was created with. The concrete proxy types
//! form a closed, tagged union; a creation message whose type tag falls
//! outside it is a hard decode error, never silently ignored.

use vstd::prelude::*;

use crate::cdp_session::CdpEvent;
use crate::emitter::Emitter;
use crate::error::Error;
use crate::json::{json_field, str_eq, JsonData, JsonValue};
use crate::page::PageEvent;
use crate::websocket_route::WsEvent;

verus! {

/// The channel record every node carries.
pub struct ChannelOwner {
    pub guid: String,
    pub parent: Option<String>,
    pub initializer: JsonValue,
}

/// The closed set of remote type tags the engine accepts.
#[derive(Clone, Copy, PartialEq, Eq, Structural, Debug)]
pub enum RemoteKind {
    Root,
    Playwright,
    BrowserType,
    Browser,
    BrowserContext,
    Page,
    Frame,
    Worker,
    Request,
    Response,
    Route,
    WebSocketRoute,
    WebSocket,
    ConsoleMessage,
    Dialog,
    Artifact,
    Stream,
    CdpSession,
    ApiRequestContext,
    ElementHandle,
    JsHandle,
    Tracing,
    Selectors,
    LocalUtils,
    SocksSupport,
    BindingCall,
    WritableStream,
}

/// The type tag of a creation message, mapped into the closed registry.
pub open spec fn kind_of_tag_data(tag: Seq<char>) -> Option<RemoteKind> {
    if tag == "Playwright"@ {
        Some(RemoteKind::Playwright)
    } else if tag == "BrowserType"@ {
        Some(RemoteKind::BrowserType)
    } else if tag == "Browser"@ {
        Some(RemoteKind::Browser)
    } else if tag == "BrowserContext"@ {
        Some(RemoteKind::BrowserContext)
    } else if tag == "Page"@ {
        Some(RemoteKind::Page)
    } else if tag == "Frame"@ {
        Some(RemoteKind::Frame)
    } else if tag == "Worker"@ {
        Some(RemoteKind::Worker)
    } else if tag == "Request"@ {
        Some(RemoteKind::Request)
    } else if tag == "Response"@ {
        Some(RemoteKind::Response)
    } else if tag == "Route"@ {
        Some(RemoteKind::Route)
    } else if tag == "WebSocketRoute"@ {
        Some(RemoteKind::WebSocketRoute)
    } else if tag == "WebSocket"@ {
        Some(RemoteKind::WebSocket)
    } else if tag == "ConsoleMessage"@ {
        Some(RemoteKind::ConsoleMessage)
    } else if tag == "Dialog"@ {
        Some(RemoteKind::Dialog)
    } else if tag == "Artifact"@ {
        Some(RemoteKind::Artifact)
    } else if tag == "Stream"@ {
        Some(RemoteKind::Stream)
    } else if tag == "CDPSession"@ {
        Some(RemoteKind::CdpSession)
    } else if tag == "APIRequestContext"@ {
        Some(RemoteKind::ApiRequestContext)
    } else if tag == "ElementHandle"@ {
        Some(RemoteKind::ElementHandle)
    } else if tag == "JSHandle"@ {
        Some(RemoteKind::JsHandle)
    } else if tag == "Tracing"@ {
        Some(RemoteKind::Tracing)
    } else if tag == "Selectors"@ {
        Some(RemoteKind::Selectors)
    } else if tag == "LocalUtils"@ {
        Some(RemoteKind::LocalUtils)
    } else if tag == "SocksSupport"@ {
        Some(RemoteKind::SocksSupport)
    } else if tag == "BindingCall"@ {
        Some(RemoteKind::BindingCall)
    } else if tag == "WritableStream"@ {
        Some(RemoteKind::WritableStream)
    } else {
        None
    }
}

/// Map a creation message's type tag into the closed registry.
pub fn kind_of_tag(tag: &str) -> (r: Option<RemoteKind>)
    ensures
        r == kind_of_tag_data(tag@),
{
    if str_eq(tag, "Playwright") {
        Some(RemoteKind::Playwright)
    } else if str_eq(tag, "BrowserType") {
        Some(RemoteKind::BrowserType)
    } else if str_eq(tag, "Browser") {
        Some(RemoteKind::Browser)
    } else if str_eq(tag, "BrowserContext") {
        Some(RemoteKind::BrowserContext)
    } else if str_eq(tag, "Page") {
        Some(RemoteKind::Page)
    } else if str_eq(tag, "Frame") {
        Some(RemoteKind::Frame)
    } else if str_eq(tag, "Worker") {
        Some(RemoteKind::Worker)
    } else if str_eq(tag, "Request") {
        Some(RemoteKind::Request)
    } else if str_eq(tag, "Response") {
        Some(RemoteKind::Response)
    } else if str_eq(tag, "Route") {
        Some(RemoteKind::Route)
    } else if str_eq(tag, "WebSocketRoute") {
        Some(RemoteKind::WebSocketRoute)
    } else if str_eq(tag, "WebSocket") {
        Some(RemoteKind::WebSocket)
    } else if str_eq(tag, "ConsoleMessage") {
        Some(RemoteKind::ConsoleMessage)
    } else if str_eq(tag, "Dialog") {
        Some(RemoteKind::Dialog)
    } else if str_eq(tag, "Artifact") {
        Some(RemoteKind::Artifact)
    } else if str_eq(tag, "Stream") {
        Some(RemoteKind::Stream)
    } else if str_eq(tag, "CDPSession") {
        Some(RemoteKind::CdpSession)
    } else if str_eq(tag, "APIRequestContext") {
        Some(RemoteKind::ApiRequestContext)
    } else if str_eq(tag, "ElementHandle") {
        Some(RemoteKind::ElementHandle)
    } else if str_eq(tag, "JSHandle") {
        Some(RemoteKind::JsHandle)
    } else if str_eq(tag, "Tracing") {
        Some(RemoteKind::Tracing)
    } else if str_eq(tag, "Selectors") {
        Some(RemoteKind::Selectors)
    } else if str_eq(tag, "LocalUtils") {
        Some(RemoteKind::LocalUtils)
    } else if str_eq(tag, "SocksSupport") {
        Some(RemoteKind::SocksSupport)
    } else if str_eq(tag, "BindingCall") {
        Some(RemoteKind::BindingCall)
    } else if str_eq(tag, "WritableStream") {
        Some(RemoteKind::WritableStream)
    } else {
        None
    }
}

/// A live proxy in the strong table: the channel record plus the state the
/// engine keeps for that concrete type.
pub enum RemoteObject {
    Root { channel: ChannelOwner },
    Browser {
        channel: ChannelOwner,
        version: String,
        contexts: Vec<String>,
        pending_context: bool,
        is_remote: bool,
    },
    BrowserContext {
        channel: ChannelOwner,
        browser: Option<String>,
        pages: Vec<String>,
        timeout: Option<u32>,
        navigation_timeout: Option<u32>,
        tracing: Option<String>,
        request_context: Option<String>,
        routes: Vec<crate::browser_context::RouteEntry>,
        websocket_routes: Vec<crate::browser_context::WebSocketRouteEntry>,
        events: Emitter<crate::browser_context::ContextEvent>,
    },
    Page { channel: ChannelOwner, events: Emitter<PageEvent> },
    Request { channel: ChannelOwner, failure: Option<String>, response_end: Option<JsonValue> },
    WebSocketRoute { channel: ChannelOwner, url: String, connected: bool, events: Emitter<WsEvent> },
    Dialog { channel: ChannelOwner, dialog_type: String, message: String, default_value: String },
    CdpSession { channel: ChannelOwner, events: Emitter<CdpEvent> },
    Other { kind: RemoteKind, channel: ChannelOwner },
}

impl RemoteObject {
    /// The node's channel record.
    pub open spec fn channel_spec(&self) -> ChannelOwner {
        match self {
            RemoteObject::Root { channel } => *channel,
            RemoteObject::Browser { channel, .. } => *channel,
            RemoteObject::BrowserContext { channel, .. } => *channel,
            RemoteObject::Page { channel, .. } => *channel,
            RemoteObject::Request { channel, .. } => *channel,
            RemoteObject::WebSocketRoute { channel, .. } => *channel,
            RemoteObject::Dialog { channel, .. } => *channel,
            RemoteObject::CdpSession { channel, .. } => *channel,
            RemoteObject::Other { channel, .. } => *channel,
        }
    }

    /// The node's guid.
    pub open spec fn guid_data(&self) -> Seq<char> {
        self.channel_spec().guid@
    }

    /// The guid of the node's parent; none only for the root.
    pub open spec fn parent_data(&self) -> Option<Seq<char>> {
        match self.channel_spec().parent {
            Some(p) => Some(p@),
            None => None,
        }
    }

    /// The node's place in the closed registry.
    pub open spec fn kind(&self) -> RemoteKind {
        match self {
            RemoteObject::Root { .. } => RemoteKind::Root,
            RemoteObject::Browser { .. } => RemoteKind::Browser,
            RemoteObject::BrowserContext { .. } => RemoteKind::BrowserContext,
            RemoteObject::Page { .. } => RemoteKind::Page,
            RemoteObject::Request { .. } => RemoteKind::Request,
            RemoteObject::WebSocketRoute { .. } => RemoteKind::WebSocketRoute,
            RemoteObject::Dialog { .. } => RemoteKind::Dialog,
            RemoteObject::CdpSession { .. } => RemoteKind::CdpSession,
            RemoteObject::Other { kind, .. } => *kind,
        }
    }

    /// Read the node's guid.
    pub fn guid(&self) -> (r: &String)
        ensures
            r@ == self.guid_data(),
    {
        match self {
            RemoteObject::Root { channel } => &channel.guid,
            RemoteObject::Browser { channel, .. } => &channel.guid,
            RemoteObject::BrowserContext { channel, .. } => &channel.guid,
            RemoteObject::Page { channel, .. } => &channel.guid,
            RemoteObject::Request { channel, .. } => &channel.guid,
            RemoteObject::WebSocketRoute { channel, .. } => &channel.guid,
            RemoteObject::Dialog { channel, .. } => &channel.guid,
            RemoteObject::CdpSession { channel, .. } => &channel.guid,
            RemoteObject::Other { channel, .. } => &channel.guid,
        }
    }

    /// Read the guid of the node's parent.
    pub fn parent(&self) -> (r: &Option<String>)
        ensures
            match r {
                Some(p) => self.parent_data() == Some(p@),
                None => self.parent_data() is None,
            },
    {
        match self {
            RemoteObject::Root { channel } => &channel.parent,
            RemoteObject::Browser { channel, .. } => &channel.parent,
            RemoteObject::BrowserContext { channel, .. } => &channel.parent,
            RemoteObject::Page { channel, .. } => &channel.parent,
            RemoteObject::Request { channel, .. } => &channel.parent,
            RemoteObject::WebSocketRoute { channel, .. } => &channel.parent,
            RemoteObject::Dialog { channel, .. } => &channel.parent,
            RemoteObject::CdpSession { channel, .. } => &channel.parent,
            RemoteObject::Other { channel, .. } => &channel.parent,
        }
    }

    /// Read the node's kind.
    pub fn kind_of(&self) -> (r: RemoteKind)
        ensures
            r == self.kind(),
    {
        match self {
            RemoteObject::Root { .. } => RemoteKind::Root,
            RemoteObject::Browser { .. } => RemoteKind::Browser,
            RemoteObject::BrowserContext { .. } => RemoteKind::BrowserContext,
            RemoteObject::Page { .. } => RemoteKind::Page,
            RemoteObject::Request { .. } => RemoteKind::Request,
            RemoteObject::WebSocketRoute { .. } => RemoteKind::WebSocketRoute,
            RemoteObject::Dialog { .. } => RemoteKind::Dialog,
            RemoteObject::CdpSession { .. } => RemoteKind::CdpSession,
            RemoteObject::Other { kind, .. } => *kind,
        }
    }

    /// Whether the node is a Browser proxy.
    pub fn is_browser(&self) -> (r: bool)
        ensures
            r == (self is Browser),
    {
        match self {
            RemoteObject::Browser { .. } => true,
            _ => false,
        }
    }

    /// The event log of a browsing-context node; empty for any other node.
    pub open spec fn bc_log(&self) -> Seq<crate::browser_context::ContextEvent> {
        match self {
            RemoteObject::BrowserContext { events, .. } => events.log(),
            _ => Seq::empty(),
        }
    }

    /// The subscribers of a browsing-context node.
    pub open spec fn bc_subs(&self) -> Seq<crate::emitter::Subscriber> {
        match self {
            RemoteObject::BrowserContext { events, .. } => events.subs(),
            _ => Seq::empty(),
        }
    }

    /// The page list of a browsing-context node.
    pub open spec fn bc_pages(&self) -> Seq<String> {
        match self {
            RemoteObject::BrowserContext { pages, .. } => pages@,
            _ => Seq::empty(),
        }
    }

    /// The network routes of a browsing-context node.
    pub open spec fn bc_routes(&self) -> Seq<crate::browser_context::RouteEntry> {
        match self {
            RemoteObject::BrowserContext { routes, .. } => routes@,
            _ => Seq::empty(),
        }
    }

    /// The websocket routes of a browsing-context node.
    pub open spec fn bc_ws_routes(&self) -> Seq<crate::browser_context::WebSocketRouteEntry> {
        match self {
            RemoteObject::BrowserContext { websocket_routes, .. } => websocket_routes@,
            _ => Seq::empty(),
        }
    }

    /// The browser backref of a browsing-context node.
    pub open spec fn bc_browser(&self) -> Option<String> {
        match self {
            RemoteObject::BrowserContext { browser, .. } => *browser,
            _ => None,
        }
    }

    /// The identity of a browsing-context node outside its mutable lists:
    /// channel, backrefs and timeouts.
    pub open spec fn bc_core(&self) -> (
        ChannelOwner,
        Option<String>,
        Option<u32>,
        Option<u32>,
        Option<String>,
        Option<String>,
    ) {
        match self {
            RemoteObject::BrowserContext {
                channel,
                browser,
                timeout,
                navigation_timeout,
                tracing,
                request_context,
                ..
            } => (*channel, *browser, *timeout, *navigation_timeout, *tracing, *request_context),
            _ => (
                arbitrary(),
                None,
                None,
                None,
                None,
                None,
            ),
        }
    }

    /// The context list of a browser node.
    pub open spec fn br_contexts(&self) -> Seq<String> {
        match self {
            RemoteObject::Browser { contexts, .. } => contexts@,
            _ => Seq::empty(),
        }
    }

    /// Whether a browser node has a one-shot context liaison armed.
    pub open spec fn br_pending(&self) -> bool {
        match self {
            RemoteObject::Browser { pending_context, .. } => *pending_context,
            _ => false,
        }
    }

    /// The identity of a browser node outside its mutable state.
    pub open spec fn br_core(&self) -> (ChannelOwner, String, bool) {
        match self {
            RemoteObject::Browser { channel, version, is_remote, .. } => (
                *channel,
                *version,
                *is_remote,
            ),
            _ => (arbitrary(), arbitrary(), false),
        }
    }

    /// The failure text of a request node.
    pub open spec fn rq_failure(&self) -> Option<String> {
        match self {
            RemoteObject::Request { failure, .. } => *failure,
            _ => None,
        }
    }

    /// The response-end timing a request node last recorded, as the raw
    /// number document the wire carried.
    pub open spec fn rq_response_end(&self) -> Option<JsonValue> {
        match self {
            RemoteObject::Request { response_end, .. } => *response_end,
            _ => None,
        }
    }

    /// The event log of a page node.
    pub open spec fn pg_log(&self) -> Seq<crate::page::PageEvent> {
        match self {
            RemoteObject::Page { events, .. } => events.log(),
            _ => Seq::empty(),
        }
    }

    /// The subscribers of a page node.
    pub open spec fn pg_subs(&self) -> Seq<crate::emitter::Subscriber> {
        match self {
            RemoteObject::Page { events, .. } => events.subs(),
            _ => Seq::empty(),
        }
    }

    /// The event log of a session node.
    pub open spec fn cdp_log(&self) -> Seq<CdpEvent> {
        match self {
            RemoteObject::CdpSession { events, .. } => events.log(),
            _ => Seq::empty(),
        }
    }

    /// The subscribers of a session node.
    pub open spec fn cdp_subs(&self) -> Seq<crate::emitter::Subscriber> {
        match self {
            RemoteObject::CdpSession { events, .. } => events.subs(),
            _ => Seq::empty(),
        }
    }

    /// The event log of a routed-websocket node.
    pub open spec fn ws_log(&self) -> Seq<WsEvent> {
        match self {
            RemoteObject::WebSocketRoute { events, .. } => events.log(),
            _ => Seq::empty(),
        }
    }

    /// The subscribers of a routed-websocket node.
    pub open spec fn ws_subs(&self) -> Seq<crate::emitter::Subscriber> {
        match self {
            RemoteObject::WebSocketRoute { events, .. } => events.subs(),
            _ => Seq::empty(),
        }
    }

    /// Whether a routed-websocket node was already connected to the server.
    pub open spec fn ws_connected(&self) -> bool {
        match self {
            RemoteObject::WebSocketRoute { connected, .. } => *connected,
            _ => false,
        }
    }

    /// The url of a routed-websocket node.
    pub open spec fn ws_url(&self) -> Seq<char> {
        match self {
            RemoteObject::WebSocketRoute { url, .. } => url@,
            _ => Seq::empty(),
        }
    }

    /// Whether the node is a Request proxy.
    pub fn is_request(&self) -> (r: bool)
        ensures
            r == (self is Request),
    {
        match self {
            RemoteObject::Request { .. } => true,
            _ => false,
        }
    }

    /// Whether the node is a Page proxy.
    pub fn is_page(&self) -> (r: bool)
        ensures
            r == (self is Page),
    {
        match self {
            RemoteObject::Page { .. } => true,
            _ => false,
        }
    }

    /// The browser backref of a browsing-context node.
    pub fn bc_browser_ref(&self) -> (r: Option<&String>)
        requires
            self is BrowserContext,
        ensures
            match r {
                Some(b) => self.bc_browser() == Some(*b),
                None => self.bc_browser() is None,
            },
    {
        match self {
            RemoteObject::BrowserContext { browser, .. } => match browser {
                Some(b) => Some(b),
                None => None,
            },
            _ => None,
        }
    }

    /// The url of a routed-websocket node.
    pub fn ws_url_ref(&self) -> (r: Option<&String>)
        ensures
            match r {
                Some(u) => self is WebSocketRoute && u@ == self.ws_url(),
                None => !(self is WebSocketRoute),
            },
    {
        match self {
            RemoteObject::WebSocketRoute { url, .. } => Some(url),
            _ => None,
        }
    }

    /// Whether the node is a BrowserContext proxy.
    pub fn is_bc(&self) -> (r: bool)
        ensures
            r == (self is BrowserContext),
    {
        match self {
            RemoteObject::BrowserContext { .. } => true,
            _ => false,
        }
    }

    /// Whether the node is a protocol-session proxy.
    pub fn is_cdp(&self) -> (r: bool)
        ensures
            r == (self is CdpSession),
    {
        match self {
            RemoteObject::CdpSession { .. } => true,
            _ => false,
        }
    }

    /// Whether the node is a routed-websocket proxy.
    pub fn is_ws_route(&self) -> (r: bool)
        ensures
            r == (self is WebSocketRoute),
    {
        match self {
            RemoteObject::WebSocketRoute { .. } => true,
            _ => false,
        }
    }

    /// Build the concrete proxy for a creation message: the closed
    /// tag-to-constructor mapping. Each constructor reads what it needs from
    /// the initializer; a Browser without a version string and a routed
    /// websocket without a url are decode errors, as the protocol always
    /// sends those. A dialog whose initializer is malformed falls back to
    /// empty strings. The browser backref of a new browsing context is its
    /// parent when that parent is a Browser.
    pub fn try_new(kind: RemoteKind, channel: ChannelOwner, parent_kind: RemoteKind) -> (r: Result<
        RemoteObject,
        Error,
    >)
        requires
            kind != RemoteKind::Root,
        ensures
            r matches Ok(o) ==> o.kind() == kind && o.channel_spec() == channel,
            r matches Ok(o) ==> (o is Browser <==> kind == RemoteKind::Browser) && (o
                is BrowserContext <==> kind == RemoteKind::BrowserContext) && (o is Page <==> kind
                == RemoteKind::Page) && (o is Request <==> kind == RemoteKind::Request) && (o
                is WebSocketRoute <==> kind == RemoteKind::WebSocketRoute) && (o is Dialog <==> kind
                == RemoteKind::Dialog) && (o is CdpSession <==> kind == RemoteKind::CdpSession)
                && !(o is Root),
            r matches Ok(o) ==> match o {
                RemoteObject::Browser { version, contexts, pending_context, is_remote, .. } => {
                    &&& json_field(channel.initializer@, "version"@) == Some(
                        JsonData::Str(version@),
                    )
                    &&& contexts@ =~= Seq::<String>::empty()
                    &&& !pending_context
                    &&& !is_remote
                },
                RemoteObject::BrowserContext {
                    browser,
                    pages,
                    timeout,
                    navigation_timeout,
                    tracing,
                    request_context,
                    routes,
                    websocket_routes,
                    events,
                    ..
                } => {
                    &&& (match browser {
                        Some(b) => parent_kind == RemoteKind::Browser && channel.parent == Some(b),
                        None => parent_kind != RemoteKind::Browser || channel.parent is None,
                    })
                    &&& pages@ =~= Seq::<String>::empty()
                    &&& timeout is None
                    &&& navigation_timeout is None
                    &&& (match tracing {
                        Some(t) => json_field(
                            json_field(channel.initializer@, "tracing"@)->Some_0,
                            "guid"@,
                        ) == Some(JsonData::Str(t@)),
                        None => true,
                    })
                    &&& (match request_context {
                        Some(t) => json_field(
                            json_field(channel.initializer@, "requestContext"@)->Some_0,
                            "guid"@,
                        ) == Some(JsonData::Str(t@)),
                        None => true,
                    })
                    &&& routes@ =~= Seq::<crate::browser_context::RouteEntry>::empty()
                    &&& websocket_routes@ =~= Seq::<
                        crate::browser_context::WebSocketRouteEntry,
                    >::empty()
                    &&& events.log().len() == 0
                    &&& events.subs().len() == 0
                    &&& events.wf()
                },
                RemoteObject::WebSocketRoute { url, connected, events, .. } => {
                    &&& json_field(channel.initializer@, "url"@) == Some(JsonData::Str(url@))
                    &&& !connected
                    &&& events.log().len() == 0
                    &&& events.subs().len() == 0
                    &&& events.wf()
                },
                RemoteObject::Dialog { dialog_type, message, default_value, .. } => true,
                RemoteObject::Page { events, .. } => events.log().len() == 0 && events.subs().len()
                    == 0 && events.wf(),
                RemoteObject::Request { failure, response_end, .. } => failure is None
                    && response_end is None,
                RemoteObject::CdpSession { events, .. } => events.log().len() == 0
                    && events.subs().len() == 0 && events.wf(),
                _ => true,
            },
            r matches Err(e) ==> e is Decode && ((kind == RemoteKind::Browser && !(json_field(
                channel.initializer@,
                "version"@,
            ) matches Some(JsonData::Str(_)))) || (kind == RemoteKind::WebSocketRoute && !(
            json_field(channel.initializer@, "url"@) matches Some(JsonData::Str(_))))),
    {
        match kind {
            RemoteKind::Browser => {
                let version: String = match channel.initializer.get("version") {
                    Some(v) => match v.as_str() {
                        Some(s) => s.clone(),
                        None => {
                            return Err(Error::Decode("browser initializer".to_owned()));
                        },
                    },
                    None => {
                        return Err(Error::Decode("browser initializer".to_owned()));
                    },
                };
                Ok(
                    RemoteObject::Browser {
                        channel,
                        version,
                        contexts: Vec::new(),
                        pending_context: false,
                        is_remote: false,
                    },
                )
            },
            RemoteKind::BrowserContext => {
                let browser: Option<String> = if parent_kind == RemoteKind::Browser {
                    match &channel.parent {
                        Some(p) => Some(p.clone()),
                        None => None,
                    }
                } else {
                    None
                };
                let tracing: Option<String> = match channel.initializer.get("tracing") {
                    Some(t) => match t.get("guid") {
                        Some(g) => match g.as_str() {
                            Some(s) => Some(s.clone()),
                            None => None,
                        },
                        None => None,
                    },
                    None => None,
                };
                let request_context: Option<String> = match channel.initializer.get(
                    "requestContext",
                ) {
                    Some(t) => match t.get("guid") {
                        Some(g) => match g.as_str() {
                            Some(s) => Some(s.clone()),
                            None => None,
                        },
                        None => None,
                    },
                    None => None,
                };
                Ok(
                    RemoteObject::BrowserContext {
                        channel,
                        browser,
                        pages: Vec::new(),
                        timeout: None,
                        navigation_timeout: None,
                        tracing,
                        request_context,
                        routes: Vec::new(),
                        websocket_routes: Vec::new(),
                        events: Emitter::new(),
                    },
                )
            },
            RemoteKind::Page => Ok(RemoteObject::Page { channel, events: Emitter::new() }),
            RemoteKind::Request => Ok(
                RemoteObject::Request { channel, failure: None, response_end: None },
            ),
            RemoteKind::WebSocketRoute => {
                let url: String = match channel.initializer.get("url") {
                    Some(v) => match v.as_str() {
                        Some(s) => s.clone(),
                        None => {
                            return Err(Error::Decode("websocket route initializer".to_owned()));
                        },
                    },
                    None => {
                        return Err(Error::Decode("websocket route initializer".to_owned()));
                    },
                };
                Ok(RemoteObject::WebSocketRoute { channel, url, connected: false, events: Emitter::new() })
            },
            RemoteKind::Dialog => {
                let dialog_type: Option<String> = match channel.initializer.get("type") {
                    Some(v) => match v.as_str() {
                        Some(s) => Some(s.clone()),
                        None => None,
                    },
                    None => None,
                };
                let message: Option<String> = match channel.initializer.get("message") {
                    Some(v) => match v.as_str() {
                        Some(s) => Some(s.clone()),
                        None => None,
                    },
                    None => None,
                };
                let default_value: Option<String> = match channel.initializer.get("defaultValue") {
                    Some(v) => match v.as_str() {
                        Some(s) => Some(s.clone()),
                        None => None,
                    },
                    None => None,
                };
                match (dialog_type, message, default_value) {
                    (Some(t), Some(m), Some(d)) => Ok(
                        RemoteObject::Dialog {
                            channel,
                            dialog_type: t,
                            message: m,
                            default_value: d,
                        },
                    ),
                    _ => Ok(
                        RemoteObject::Dialog {
                            channel,
                            dialog_type: String::new(),
                            message: String::new(),
                            default_value: String::new(),
                        },
                    ),
                }
            },
            RemoteKind::CdpSession => Ok(
                RemoteObject::CdpSession { channel, events: Emitter::new() },
            ),
            _ => Ok(RemoteObject::Other { kind, channel }),
        }
    }
}

} // verus!
