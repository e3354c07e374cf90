//! The state of the server, and the messages that it sends.
use vstd::prelude::*;

use crate::fxmap;
use crate::json::Json;
use crate::protocol;
use crate::text;

verus! {

/// The state of a WebSocket connection to a client.
#[derive(Clone, Copy, Debug, Eq, PartialEq, Structural)]
pub struct CdpConnection {
    /// Whether the client asked for automatic target attachment via
    /// `Target.setAutoAttach`.
    pub auto_attach: bool,
    /// Whether the client asked for target discovery notifications via
    /// `Target.setDiscoverTargets`.
    pub target_discovery: bool,
}

impl View for CdpConnection {
    type V = CdpConnection;

    open spec fn view(&self) -> CdpConnection {
        *self
    }
}

/// A session, which ties a connection to an inspectable target. This is
/// the "flat" session model of the modern protocol: all messages are sent
/// over the same WebSocket and demultiplexed with a `sessionId` member.
#[derive(Clone, Copy, Debug, Eq, PartialEq, Structural)]
pub struct CdpSession {
    /// The number whose decimal notation is the session id.
    pub number: u64,
    pub connection_id: u64,
    /// The browsing context that the session is attached to.
    pub target_id: u64,
    pub page_enabled: bool,
    pub runtime_enabled: bool,
    pub network_enabled: bool,
    pub log_enabled: bool,
    pub console_enabled: bool,
    pub dom_enabled: bool,
}

impl View for CdpSession {
    type V = CdpSession;

    open spec fn view(&self) -> CdpSession {
        *self
    }
}

/// An inspectable top-level browsing context ("page target").
#[derive(Debug)]
pub struct CdpTarget {
    /// The `targetId` string handed out to clients.
    pub target_id_string: String,
    /// The web view that this browsing context belongs to.
    pub webview_id: u64,
    pub title: String,
    pub url: String,
    /// The origin of the URL.
    pub origin: String,
    pub loading: bool,
    pub current_pipeline: Option<u64>,
}

/// What a [`CdpTarget`] holds.
pub struct Target {
    pub target_id_string: Seq<char>,
    pub webview_id: u64,
    pub title: Seq<char>,
    pub url: Seq<char>,
    pub origin: Seq<char>,
    pub loading: bool,
    pub current_pipeline: Option<u64>,
}

impl View for CdpTarget {
    type V = Target;

    open spec fn view(&self) -> Target {
        Target {
            target_id_string: self.target_id_string@,
            webview_id: self.webview_id,
            title: self.title@,
            url: self.url@,
            origin: self.origin@,
            loading: self.loading,
            current_pipeline: self.current_pipeline,
        }
    }
}

/// A script global ("execution context").
#[derive(Debug)]
pub struct CdpPipeline {
    pub browsing_context_id: u64,
    pub execution_context_id: i64,
    /// The name that tells the pipeline from all others.
    pub label: String,
    /// The origin of the URL of the document.
    pub origin: String,
    /// Whether there is a channel to the script thread.
    pub ready: bool,
}

/// What a [`CdpPipeline`] holds.
pub struct Pipeline {
    pub browsing_context_id: u64,
    pub execution_context_id: i64,
    pub label: Seq<char>,
    pub origin: Seq<char>,
    pub ready: bool,
}

impl View for CdpPipeline {
    type V = Pipeline;

    open spec fn view(&self) -> Pipeline {
        Pipeline {
            browsing_context_id: self.browsing_context_id,
            execution_context_id: self.execution_context_id,
            label: self.label@,
            origin: self.origin@,
            ready: self.ready,
        }
    }
}

/// A DOM node reference used by the `DOM` domain to resolve `nodeId`s back
/// to script-side nodes.
#[derive(Debug)]
pub struct DomNodeRef {
    pub pipeline_id: u64,
    pub unique_id: String,
}

/// What a [`DomNodeRef`] holds.
pub struct DomNode {
    pub pipeline_id: u64,
    pub unique_id: Seq<char>,
}

impl View for DomNodeRef {
    type V = DomNode;

    open spec fn view(&self) -> DomNode {
        DomNode { pipeline_id: self.pipeline_id, unique_id: self.unique_id@ }
    }
}

/// The maximum number of bytes of a response body that is kept in memory for
/// `Network.getResponseBody`. Larger bodies are dropped.
pub const MAX_CAPTURED_BODY_SIZE: usize = 20 * 1024 * 1024;

/// The maximum number of finished network requests to remember. Oldest
/// entries are dropped beyond this, mirroring how the Chrome DevTools
/// frontend keeps a bounded buffer.
pub const MAX_REMEMBERED_NETWORK_REQUESTS: usize = 500;

/// The state of a network request, used to correlate request and response
/// events.
#[derive(Debug)]
pub struct NetworkRequestState {
    pub browsing_context_id: u64,
    pub url: String,
    /// When the request finished, counted in finished requests.
    pub finished: Option<u64>,
    /// The response body, when the fetch layer captured one.
    pub body: Option<Vec<u8>>,
    /// The MIME type of the response, from the `Content-Type` header.
    pub mime_type: String,
}

/// What a [`NetworkRequestState`] holds.
pub struct NetworkRequest {
    pub browsing_context_id: u64,
    pub url: Seq<char>,
    pub finished: Option<u64>,
    pub body: Option<Seq<u8>>,
    pub mime_type: Seq<char>,
}

/// The bytes that there may be.
pub open spec fn optional_bytes(bytes: Option<Vec<u8>>) -> Option<Seq<u8>> {
    match bytes {
        Some(b) => Some(b@),
        None => None,
    }
}

impl View for NetworkRequestState {
    type V = NetworkRequest;

    open spec fn view(&self) -> NetworkRequest {
        NetworkRequest {
            browsing_context_id: self.browsing_context_id,
            url: self.url@,
            finished: self.finished,
            body: optional_bytes(self.body),
            mime_type: self.mime_type@,
        }
    }
}

/// A reply that is held back: to whom it goes, and to which command.
#[derive(Clone, Copy, Debug, Eq, PartialEq, Structural)]
pub struct PendingReply {
    pub connection_id: u64,
    pub id: i64,
}

impl View for PendingReply {
    type V = PendingReply;

    open spec fn view(&self) -> PendingReply {
        *self
    }
}

/// A message on its way to a connection.
pub type Sent = (u64, Json);

/// The state of the server.
#[verifier::ext_equal]
pub struct State {
    pub next_connection_id: u64,
    pub next_session_number: u64,
    pub next_execution_context_id: i64,
    pub next_node_id: i64,
    pub next_target_number: u64,
    pub next_finish_number: u64,
    pub connections: Map<u64, CdpConnection>,
    pub sessions: Map<Seq<char>, CdpSession>,
    pub targets: Map<u64, Target>,
    pub target_ids: Map<Seq<char>, u64>,
    pub pipelines: Map<u64, Pipeline>,
    pub network_requests: Map<Seq<char>, NetworkRequest>,
    pub dom_nodes: Map<i64, DomNode>,
    pub pending_targets: Map<u64, Seq<char>>,
    pub pending_create_replies: Map<u64, PendingReply>,
    pub outbox: Seq<Sent>,
    pub web_socket_debugger_url: Seq<char>,
    pub browser_id: Seq<char>,
}

/// The object without members.
pub open spec fn nothing() -> Json {
    Json::Object(Map::empty())
}

/// A reply to a command.
pub open spec fn reply_json(id: i64, result: Json) -> Json {
    Json::Object(map!["id"@ => Json::Int(id as int), "result"@ => result])
}

/// An error reply to a command.
pub open spec fn error_reply_json(id: i64, code: i64, message: Seq<char>) -> Json {
    Json::Object(
        map!["id"@ => Json::Int(id as int), "error"@ => protocol::error_json(code, message)],
    )
}

/// The members of an object.
pub open spec fn members(json: Json) -> Map<Seq<char>, Json> {
    match json {
        Json::Object(members) => members,
        _ => Map::empty(),
    }
}

/// A message of a session.
pub open spec fn with_session(message: Json, session_id: Seq<char>) -> Json {
    Json::Object(members(message).insert("sessionId"@, Json::Text(session_id)))
}

/// The target id of a number.
pub open spec fn page_id(number: u64) -> Seq<char> {
    "page-"@ + text::decimal(number as nat)
}

/// Which of the sessions of a target an event is for.
#[derive(Clone, Copy, Debug, Eq, PartialEq, Structural)]
pub enum Audience {
    Page,
    Runtime,
    Network,
    Log,
    RuntimeOrPage,
}

/// A session is attached to the target and asked for the events.
pub open spec fn hears(session: CdpSession, target_id: u64, audience: Audience) -> bool {
    session.target_id == target_id && match audience {
        Audience::Page => session.page_enabled,
        Audience::Runtime => session.runtime_enabled,
        Audience::Network => session.network_enabled,
        Audience::Log => session.log_enabled,
        Audience::RuntimeOrPage => session.runtime_enabled || session.page_enabled,
    }
}

/// The sessions that an event is for.
pub open spec fn listeners(
    sessions: Map<Seq<char>, CdpSession>,
    target_id: u64,
    audience: Audience,
) -> Set<Seq<char>> {
    Set::new(|id: Seq<char>| sessions.contains_key(id) && hears(sessions[id], target_id, audience))
}

/// An event, addressed to each of the sessions.
pub open spec fn addressed(
    order: Seq<Seq<char>>,
    sessions: Map<Seq<char>, CdpSession>,
    event: Json,
) -> Seq<Sent> {
    order.map_values(|id: Seq<char>| (sessions[id].connection_id, with_session(event, id)))
}

/// An event goes out to every session that it is for, and nothing else
/// happens. In which order they get it is open.
pub open spec fn announced(
    before: State,
    target_id: u64,
    audience: Audience,
    event: Json,
    after: State,
) -> bool {
    exists|order: Seq<Seq<char>>| #[trigger]
        fxmap::lists(order, listeners(before.sessions, target_id, audience)) && after == (State {
            outbox: before.outbox + addressed(order, before.sessions, event),
            ..before
        })
}

/// One of the sessions is attached to the target.
pub open spec fn some_attached(sessions: Map<Seq<char>, CdpSession>, target_id: u64) -> bool {
    exists|id: Seq<char>|
        sessions.contains_key(id) && (#[trigger] sessions[id]).target_id == target_id
}

/// One of the sessions ties the connection to the target.
pub open spec fn some_between(
    sessions: Map<Seq<char>, CdpSession>,
    connection_id: u64,
    target_id: u64,
) -> bool {
    exists|id: Seq<char>|
        sessions.contains_key(id) && (#[trigger] sessions[id]).connection_id == connection_id
            && sessions[id].target_id == target_id
}

impl State {
    /// A message is on its way to a connection.
    pub open spec fn send(self, connection_id: u64, message: Json) -> State {
        State { outbox: self.outbox.push((connection_id, message)), ..self }
    }

    /// A command is answered.
    pub open spec fn answer(self, connection_id: u64, id: i64, result: Json) -> State {
        self.send(connection_id, reply_json(id, result))
    }

    /// A command is refused.
    pub open spec fn refuse(self, connection_id: u64, id: i64, code: i64, message: Seq<char>) -> State {
        self.send(connection_id, error_reply_json(id, code, message))
    }

    /// A command of a session is answered, if it has an id.
    pub open spec fn session_answer(self, ticket: TicketView, result: Json) -> State {
        match ticket.id {
            Some(id) => self.send(
                ticket.connection_id,
                with_session(reply_json(id, result), ticket.session_id),
            ),
            None => self,
        }
    }

    /// A command of a session is refused, if it has an id.
    pub open spec fn session_refuse(self, ticket: TicketView, code: i64, message: Seq<char>) -> State {
        match ticket.id {
            Some(id) => self.send(
                ticket.connection_id,
                with_session(error_reply_json(id, code, message), ticket.session_id),
            ),
            None => self,
        }
    }

    /// A session is attached to the target.
    pub open spec fn is_attached(self, target_id: u64) -> bool {
        some_attached(self.sessions, target_id)
    }

    /// The connection has a session that is attached to the target.
    pub open spec fn has_session(self, connection_id: u64, target_id: u64) -> bool {
        some_between(self.sessions, connection_id, target_id)
    }

    /// The `TargetInfo` of a target.
    pub open spec fn target_info(self, target_id: u64) -> Json {
        if self.targets.contains_key(target_id) {
            let target = self.targets[target_id];
            Json::Object(
                map![
                    "targetId"@ => Json::Text(target.target_id_string),
                    "type"@ => Json::Text("page"@),
                    "title"@ => Json::Text(target.title),
                    "url"@ => Json::Text(target.url),
                    "attached"@ => Json::Bool(self.is_attached(target_id)),
                    "canAccessOpener"@ => Json::Bool(false),
                    "browserContextId"@ => Json::Text(self.browser_id),
                ],
            )
        } else {
            nothing()
        }
    }

    /// A session is attached to the target, unless the connection has one
    /// already, and introduced to the client.
    pub open spec fn attach(self, connection_id: u64, target_id: u64) -> State {
        if self.has_session(connection_id, target_id) {
            self
        } else {
            let session_id = text::decimal(self.next_session_number as nat);
            let info = self.target_info(target_id);
            State {
                next_session_number: (self.next_session_number + 1) as u64,
                sessions: self.sessions.insert(
                    session_id,
                    new_session(self.next_session_number, connection_id, target_id),
                ),
                ..self
            }.send(connection_id, attached_json(session_id, info))
        }
    }

    /// The frame id that stands for a target, empty where it is not known.
    pub open spec fn frame_id(self, target_id: u64) -> Seq<char> {
        if self.targets.contains_key(target_id) {
            self.targets[target_id].target_id_string
        } else {
            Seq::empty()
        }
    }

    /// The sessions without those of which `gone` speaks.
    pub open spec fn without_sessions(self, gone: Set<Seq<char>>) -> State {
        State { sessions: self.sessions.remove_keys(gone), ..self }
    }

    /// The numbers that are given next are free.
    pub open spec fn room(self) -> bool {
        &&& self.next_connection_id < u64::MAX
        &&& self.next_session_number < u64::MAX
        &&& self.next_session_number + self.targets.dom().len() <= u64::MAX
        &&& self.next_session_number + self.connections.dom().len() <= u64::MAX
        &&& self.next_execution_context_id < i64::MAX
        &&& self.next_target_number < u64::MAX
        &&& self.next_finish_number < u64::MAX
    }
}

/// A session that asked for no events yet.
pub open spec fn new_session(number: u64, connection_id: u64, target_id: u64) -> CdpSession {
    CdpSession {
        number,
        connection_id,
        target_id,
        page_enabled: false,
        runtime_enabled: false,
        network_enabled: false,
        log_enabled: false,
        console_enabled: false,
        dom_enabled: false,
    }
}

/// The event that introduces a session.
pub open spec fn attached_json(session_id: Seq<char>, target_info: Json) -> Json {
    with_session(
        protocol::event_json(
            "Target.attachedToTarget"@,
            Json::Object(
                map![
                    "sessionId"@ => Json::Text(session_id),
                    "targetInfo"@ => target_info,
                    "waitingForDebugger"@ => Json::Bool(false),
                ],
            ),
        ),
        session_id,
    )
}

/// An event about a target.
pub open spec fn target_event(method: Seq<char>, target_info: Json) -> Json {
    protocol::event_json(method, Json::Object(map!["targetInfo"@ => target_info]))
}

/// Where the reply to a command of a session goes.
#[derive(Debug)]
pub struct Ticket {
    pub connection_id: u64,
    /// The id of the command; one without an id gets no reply.
    pub id: Option<i64>,
    pub session_id: String,
}

/// What a [`Ticket`] holds.
pub struct TicketView {
    pub connection_id: u64,
    pub id: Option<i64>,
    pub session_id: Seq<char>,
}

impl View for Ticket {
    type V = TicketView;

    open spec fn view(&self) -> TicketView {
        TicketView {
            connection_id: self.connection_id,
            id: self.id,
            session_id: self.session_id@,
        }
    }
}

} // verus!
