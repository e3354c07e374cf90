//! The server: its connections, sessions and targets, and the messages that it
//! sends to its clients.
use rustc_hash::FxHashMap;
use serde_json::Value;
use vstd::prelude::*;
use vstd::utf8::*;

use crate::fxmap;
use crate::invariants;
use crate::json;
use crate::json::Json;
use crate::json::Members;
use crate::model;
use crate::model::Audience;
use crate::model::CdpConnection;
use crate::model::CdpPipeline;
use crate::model::CdpSession;
use crate::model::CdpTarget;
use crate::model::DomNodeRef;
use crate::model::NetworkRequestState;
use crate::model::PendingReply;
use crate::model::Sent;
use crate::model::State;
use crate::model::Ticket;
use crate::protocol;
use crate::protocol::CdpError;
use crate::text;
use crate::websocket;
use crate::websocket::WsMessage;

verus! {

/// The server state.
pub struct CdpServer {
    pub next_connection_id: u64,
    pub next_session_number: u64,
    pub next_execution_context_id: i64,
    pub next_node_id: i64,
    pub next_target_number: u64,
    pub next_finish_number: u64,
    pub connections: FxHashMap<u64, CdpConnection>,
    pub sessions: FxHashMap<String, CdpSession>,
    pub targets: FxHashMap<u64, CdpTarget>,
    pub target_ids: FxHashMap<String, u64>,
    pub pipelines: FxHashMap<u64, CdpPipeline>,
    pub network_requests: FxHashMap<String, NetworkRequestState>,
    pub dom_nodes: FxHashMap<i64, DomNodeRef>,
    /// Web views that were created through `Target.createTarget` but whose
    /// browsing context has not been observed yet. Maps the web view to the
    /// target id that is set aside for it.
    pub pending_targets: FxHashMap<u64, String>,
    /// `Target.createTarget` replies held back until the new browsing
    /// context registers, so the client never receives a target id that
    /// cannot be attached to yet.
    pub pending_create_replies: FxHashMap<u64, PendingReply>,
    /// Messages queued for delivery to connections, flushed at the end of
    /// each entry point.
    pub outbox: Vec<(u64, Value)>,
    pub web_socket_debugger_url: String,
    pub browser_id: String,
}

/// The messages that a queue holds.
pub open spec fn queued(outbox: Seq<(u64, Value)>) -> Seq<Sent> {
    outbox.map_values(|message: (u64, Value)| (message.0, json::json_of(message.1)))
}

impl View for CdpServer {
    type V = State;

    open spec fn view(&self) -> State {
        State {
            next_connection_id: self.next_connection_id,
            next_session_number: self.next_session_number,
            next_execution_context_id: self.next_execution_context_id,
            next_node_id: self.next_node_id,
            next_target_number: self.next_target_number,
            next_finish_number: self.next_finish_number,
            connections: fxmap::contents(self.connections),
            sessions: fxmap::contents(self.sessions),
            targets: fxmap::contents(self.targets),
            target_ids: fxmap::contents(self.target_ids),
            pipelines: fxmap::contents(self.pipelines),
            network_requests: fxmap::contents(self.network_requests),
            dom_nodes: fxmap::contents(self.dom_nodes),
            pending_targets: fxmap::contents(self.pending_targets),
            pending_create_replies: fxmap::contents(self.pending_create_replies),
            outbox: queued(self.outbox@),
            web_socket_debugger_url: self.web_socket_debugger_url@,
            browser_id: self.browser_id@,
        }
    }
}

/// The state of a server to which nothing has happened yet.
pub open spec fn initial(web_socket_debugger_url: Seq<char>, browser_id: Seq<char>) -> State {
    State {
        next_connection_id: 0,
        next_session_number: 0,
        next_execution_context_id: 0,
        next_node_id: 0,
        next_target_number: 0,
        next_finish_number: 0,
        connections: Map::empty(),
        sessions: Map::empty(),
        targets: Map::empty(),
        target_ids: Map::empty(),
        pipelines: Map::empty(),
        network_requests: Map::empty(),
        dom_nodes: Map::empty(),
        pending_targets: Map::empty(),
        pending_create_replies: Map::empty(),
        outbox: Seq::empty(),
        web_socket_debugger_url,
        browser_id,
    }
}

/// Bytes to be written to a connection.
#[derive(Debug)]
pub struct Delivery {
    pub connection_id: u64,
    pub bytes: Vec<u8>,
}

/// The frames in which a message is sent.
pub open spec fn frames(message: Json) -> Seq<u8> {
    websocket::message_bytes(0x1, encode_utf8(json::json_text(message)))
}

/// What is written for the messages of a queue; one for a connection that is
/// gone is dropped.
pub open spec fn delivered(
    outbox: Seq<Sent>,
    connections: Map<u64, CdpConnection>,
) -> Seq<(u64, Seq<u8>)>
    decreases outbox.len(),
{
    if outbox.len() == 0 {
        Seq::empty()
    } else {
        let front = delivered(outbox.drop_last(), connections);
        let (connection_id, message) = outbox.last();
        if connections.contains_key(connection_id) {
            front.push((connection_id, frames(message)))
        } else {
            front
        }
    }
}

/// What a list of deliveries holds.
pub open spec fn deliveries(list: Seq<Delivery>) -> Seq<(u64, Seq<u8>)> {
    list.map_values(|delivery: Delivery| (delivery.connection_id, delivery.bytes@))
}

/// The sessions of a connection.
pub open spec fn sessions_of(state: State, connection_id: u64) -> Set<Seq<char>> {
    Set::new(
        |id: Seq<char>|
            state.sessions.contains_key(id) && state.sessions[id].connection_id == connection_id,
    )
}

/// A connection and all of its sessions are gone.
pub open spec fn disconnected(state: State, connection_id: u64) -> State {
    State {
        connections: state.connections.remove(connection_id),
        ..state.without_sessions(sessions_of(state, connection_id))
    }
}

/// The queue was delivered.
pub open spec fn flushed(state: State) -> State {
    State { outbox: Seq::empty(), ..state }
}

/// Whether a session is attached to the target and asked for the events.
fn wants(session: &CdpSession, target_id: u64, audience: Audience) -> (result: bool)
    ensures
        result == model::hears(*session, target_id, audience),
{
    session.target_id == target_id && match audience {
        Audience::Page => session.page_enabled,
        Audience::Runtime => session.runtime_enabled,
        Audience::Network => session.network_enabled,
        Audience::Log => session.log_enabled,
        Audience::RuntimeOrPage => session.runtime_enabled || session.page_enabled,
    }
}

/// A message of a session.
pub(crate) fn with_session(message: Value, session_id: &str) -> (result: Value)
    requires
        json::json_of(message) is Object,
    ensures
        json::json_of(result) == model::with_session(json::json_of(message), session_id@),
{
    Members::of(message).with("sessionId", json::string(session_id)).value()
}

/// The object without members.
pub(crate) fn nothing() -> (value: Value)
    ensures
        json::json_of(value) == model::nothing(),
{
    Members::new().value()
}

impl CdpServer {
    /// A server without connections.
    pub fn new(web_socket_debugger_url: String, browser_id: String) -> (server: Self)
        ensures
            server@ == initial(web_socket_debugger_url@, browser_id@),
            invariants::wf(server@),
    {
        let server = CdpServer {
            next_connection_id: 0,
            next_session_number: 0,
            next_execution_context_id: 0,
            next_node_id: 0,
            next_target_number: 0,
            next_finish_number: 0,
            connections: fxmap::fx_new(),
            sessions: fxmap::fx_new(),
            targets: fxmap::fx_new(),
            target_ids: fxmap::fx_new(),
            pipelines: fxmap::fx_new(),
            network_requests: fxmap::fx_new(),
            dom_nodes: fxmap::fx_new(),
            pending_targets: fxmap::fx_new(),
            pending_create_replies: fxmap::fx_new(),
            outbox: Vec::new(),
            web_socket_debugger_url,
            browser_id,
        };
        assert(server@ =~= initial(web_socket_debugger_url@, browser_id@));
        proof {
            invariants::law_initial_state(web_socket_debugger_url@, browser_id@);
        }
        server
    }

    /// Queues a message for a single connection.
    pub(crate) fn send_to_connection(&mut self, connection_id: u64, message: Value)
        ensures
            final(self)@ == old(self)@.send(connection_id, json::json_of(message)),
    {
        let ghost before = self.outbox@;
        self.outbox.push((connection_id, message));
        assert(queued(self.outbox@) =~= queued(before).push(
            (connection_id, json::json_of(message)),
        ));
    }

    /// Queues an error reply for a single connection.
    pub(crate) fn send_error_to_connection(&mut self, connection_id: u64, id: i64, error: CdpError)
        ensures
            final(self)@ == old(self)@.refuse(connection_id, id, error.code, error.message@),
    {
        self.send_to_connection(
            connection_id,
            Members::new().with("id", json::integer(id)).with("error", error.to_json()).value(),
        );
    }

    /// Queues a reply for a single connection.
    pub(crate) fn send_reply_to_connection(&mut self, connection_id: u64, id: i64, result: Value)
        ensures
            final(self)@ == old(self)@.answer(connection_id, id, json::json_of(result)),
    {
        self.send_to_connection(
            connection_id,
            Members::new().with("id", json::integer(id)).with("result", result).value(),
        );
    }

    /// Sends a reply to a session-scoped command. The reply echoes the
    /// `sessionId`, as required by the flat protocol.
    pub(crate) fn send_session_reply(&mut self, ticket: &Ticket, result: Value)
        ensures
            final(self)@ == old(self)@.session_answer(ticket@, json::json_of(result)),
    {
        let Some(id) = ticket.id else {
            return;
        };
        let reply = Members::new().with("id", json::integer(id)).with("result", result).value();
        self.send_to_connection(
            ticket.connection_id,
            with_session(reply, ticket.session_id.as_str()),
        );
    }

    /// Sends an error reply to a session-scoped command.
    pub(crate) fn send_session_error(&mut self, ticket: &Ticket, error: CdpError)
        ensures
            final(self)@ == old(self)@.session_refuse(ticket@, error.code, error.message@),
    {
        let Some(id) = ticket.id else {
            return;
        };
        let reply = Members::new().with("id", json::integer(id)).with(
            "error",
            error.to_json(),
        ).value();
        self.send_to_connection(
            ticket.connection_id,
            with_session(reply, ticket.session_id.as_str()),
        );
    }

    /// The sessions that an event is for.
    fn listening_sessions(&self, target_id: u64, audience: Audience) -> (ids: Vec<String>)
        ensures
            fxmap::lists(
                fxmap::views(ids@),
                model::listeners(self@.sessions, target_id, audience),
            ),
    {
        let ghost wanted = |session: CdpSession| model::hears(session, target_id, audience);
        let holds = |session: &CdpSession| -> (result: bool)
            ensures
                result == model::hears(*session, target_id, audience),
        {
            wants(session, target_id, audience)
        };
        let ids = fxmap::fx_keys_where(&self.sessions, holds, Ghost(wanted));
        assert(fxmap::selected(self@.sessions, wanted) =~= model::listeners(
            self@.sessions,
            target_id,
            audience,
        ));
        ids
    }

    /// Queues an event for every session attached to the given target that
    /// belongs to the audience.
    pub(crate) fn send_to_target_sessions(
        &mut self,
        target_id: u64,
        audience: Audience,
        event: Value,
    )
        requires
            json::json_of(event) is Object,
        ensures
            model::announced(
                old(self)@,
                target_id,
                audience,
                json::json_of(event),
                final(self)@,
            ),
    {
        let ids = self.listening_sessions(target_id, audience);
        let ghost order = fxmap::views(ids@);
        let ghost before = self@;
        let ghost message = json::json_of(event);
        let mut i: usize = 0;
        assert(before.outbox + model::addressed(order.take(0), before.sessions, message)
            =~= before.outbox);
        while i < ids.len()
            invariant
                i <= ids@.len(),
                order == fxmap::views(ids@),
                fxmap::lists(order, model::listeners(before.sessions, target_id, audience)),
                message == json::json_of(event),
                message is Object,
                self@ == (State {
                    outbox: before.outbox + model::addressed(
                        order.take(i as int),
                        before.sessions,
                        message,
                    ),
                    ..before
                }),
            decreases ids@.len() - i,
        {
            assert(order.contains(order[i as int]));
            assert(order[i as int] == ids@[i as int]@);
            if let Some(session) = fxmap::fx_get(&self.sessions, &ids[i]) {
                let connection_id = session.connection_id;
                let copy = with_session(event.clone(), ids[i].as_str());
                self.send_to_connection(connection_id, copy);
            }
            i += 1;
            assert(before.outbox + model::addressed(order.take(i as int), before.sessions, message)
                =~= (before.outbox + model::addressed(
                order.take(i - 1),
                before.sessions,
                message,
            )).push(
                (
                    before.sessions[order[i - 1]].connection_id,
                    model::with_session(message, order[i - 1]),
                ),
            ));
        }
        assert(order.take(i as int) =~= order);
    }

    /// Delivers all queued messages.
    pub(crate) fn flush(&mut self) -> (list: Vec<Delivery>)
        ensures
            final(self)@ == flushed(old(self)@),
            deliveries(list@) == delivered(old(self)@.outbox, old(self)@.connections),
    {
        let ghost before = self@;
        let mut list: Vec<Delivery> = Vec::new();
        let mut i: usize = 0;
        assert(deliveries(list@) =~= delivered(before.outbox.take(0), before.connections));
        while i < self.outbox.len()
            invariant
                i <= self.outbox@.len(),
                self@ == before,
                deliveries(list@) == delivered(before.outbox.take(i as int), before.connections),
            decreases self.outbox@.len() - i,
        {
            let ghost done = list@;
            let ghost front = before.outbox.take(i + 1);
            assert(front.drop_last() =~= before.outbox.take(i as int));
            assert(front.last() == before.outbox[i as int]);
            let connection_id = self.outbox[i].0;
            if fxmap::fx_get(&self.connections, &connection_id).is_some() {
                let message = WsMessage::Text(json::value_text(&self.outbox[i].1));
                let mut bytes: Vec<u8> = Vec::new();
                websocket::write_message(&mut bytes, &message);
                assert(bytes@ =~= frames(before.outbox[i as int].1));
                list.push(Delivery { connection_id, bytes });
                assert(deliveries(list@) =~= deliveries(done).push(
                    (connection_id, frames(before.outbox[i as int].1)),
                ));
            }
            i += 1;
        }
        assert(before.outbox.take(i as int) =~= before.outbox);
        self.outbox = Vec::new();
        assert(self@.outbox =~= Seq::empty());
        list
    }

    /// Whether a session is attached to the target, of the given connection
    /// where one is given.
    fn find_session(&self, connection_id: Option<u64>, target_id: u64) -> (found: bool)
        ensures
            found == match connection_id {
                Some(connection_id) => self@.has_session(connection_id, target_id),
                None => self@.is_attached(target_id),
            },
    {
        let keys = fxmap::fx_keys(&self.sessions);
        let ghost all = fxmap::views(keys@);
        let mut i: usize = 0;
        while i < keys.len()
            invariant
                i <= keys@.len(),
                all == fxmap::views(keys@),
                fxmap::lists(all, self@.sessions.dom()),
                forall|j: int|
                    0 <= j < i ==> {
                        let session = self@.sessions[#[trigger] all[j]];
                        session.target_id != target_id || (connection_id matches Some(c)
                            && session.connection_id != c)
                    },
            decreases keys@.len() - i,
        {
            assert(all.contains(all[i as int]));
            if let Some(session) = fxmap::fx_get(&self.sessions, &keys[i]) {
                let matches = match connection_id {
                    Some(connection_id) => session.connection_id == connection_id,
                    None => true,
                };
                if matches && session.target_id == target_id {
                    assert(self@.sessions[all[i as int]].target_id == target_id);
                    return true;
                }
            }
            i += 1;
        }
        proof {
            assert forall|id: Seq<char>| self@.sessions.contains_key(id) implies ({
                let session = #[trigger] self@.sessions[id];
                session.target_id != target_id || (connection_id matches Some(c)
                    && session.connection_id != c)
            }) by {
                assert(all.contains(id));
                let j = choose|j: int| 0 <= j < all.len() && all[j] == id;
                assert(all[j] == id);
            }
        }
        false
    }

    /// Serializes the `Target.TargetInfo` for a target.
    pub(crate) fn target_info_json(&self, target_id: u64) -> (value: Value)
        ensures
            json::json_of(value) == self@.target_info(target_id),
    {
        let Some(target) = fxmap::fx_get(&self.targets, &target_id) else {
            return nothing();
        };
        let attached = self.find_session(None, target_id);
        Members::new().with("targetId", json::string(target.target_id_string.as_str())).with(
            "type",
            json::string("page"),
        ).with("title", json::string(target.title.as_str())).with(
            "url",
            json::string(target.url.as_str()),
        ).with("attached", json::boolean(attached)).with(
            "canAccessOpener",
            json::boolean(false),
        ).with("browserContextId", json::string(self.browser_id.as_str())).value()
    }

    /// Attaches a new session between a connection and a target, emitting the
    /// `Target.attachedToTarget` event that introduces the session.
    pub(crate) fn attach_session(&mut self, connection_id: u64, target_id: u64)
        requires
            old(self)@.next_session_number < u64::MAX,
        ensures
            final(self)@ == old(self)@.attach(connection_id, target_id),
    {
        // Do not attach the same target twice for the same connection.
        if self.find_session(Some(connection_id), target_id) {
            return;
        }
        let number = self.next_session_number;
        let session_id = text::decimal_text(number);
        let target_info = self.target_info_json(target_id);
        self.next_session_number = number + 1;
        fxmap::fx_insert(
            &mut self.sessions,
            session_id.clone(),
            CdpSession {
                number,
                connection_id,
                target_id,
                page_enabled: false,
                runtime_enabled: false,
                network_enabled: false,
                log_enabled: false,
                console_enabled: false,
                dom_enabled: false,
            },
        );
        let attached = protocol::event(
            "Target.attachedToTarget",
            Members::new().with("sessionId", json::string(session_id.as_str())).with(
                "targetInfo",
                target_info,
            ).with("waitingForDebugger", json::boolean(false)).value(),
        );
        self.send_to_connection(connection_id, with_session(attached, session_id.as_str()));
    }

    /// Removes the given sessions.
    pub(crate) fn remove_sessions(&mut self, ids: &Vec<String>)
        ensures
            final(self)@ == old(self)@.without_sessions(fxmap::views(ids@).to_set()),
    {
        let ghost before = self@;
        let ghost order = fxmap::views(ids@);
        let mut i: usize = 0;
        assert(before.sessions.remove_keys(order.take(0).to_set()) =~= before.sessions);
        while i < ids.len()
            invariant
                i <= ids@.len(),
                order == fxmap::views(ids@),
                self@ == (State {
                    sessions: before.sessions.remove_keys(order.take(i as int).to_set()),
                    ..before
                }),
            decreases ids@.len() - i,
        {
            fxmap::fx_remove(&mut self.sessions, &ids[i]);
            i += 1;
            proof {
                fxmap::lemma_take_to_set(order, i - 1);
            }
            assert(before.sessions.remove_keys(order.take(i as int).to_set())
                =~= before.sessions.remove_keys(order.take(i - 1).to_set()).remove(order[i - 1]));
        }
        assert(order.take(i as int) =~= order);
    }

    /// The sessions of a connection.
    fn connection_sessions(&self, connection_id: u64) -> (ids: Vec<String>)
        ensures
            fxmap::lists(fxmap::views(ids@), sessions_of(self@, connection_id)),
    {
        let ghost wanted = |session: CdpSession| session.connection_id == connection_id;
        let holds = |session: &CdpSession| -> (result: bool)
            ensures
                result == (session.connection_id == connection_id),
        {
            session.connection_id == connection_id
        };
        let ids = fxmap::fx_keys_where(&self.sessions, holds, Ghost(wanted));
        assert(fxmap::selected(self@.sessions, wanted) =~= sessions_of(self@, connection_id));
        ids
    }

    /// Removes a connection and closes all of its sessions.
    pub fn remove_connection(&mut self, connection_id: u64)
        ensures
            final(self)@ == disconnected(old(self)@, connection_id),
            invariants::wf(old(self)@) ==> invariants::wf(final(self)@),
    {
        proof {
            if invariants::wf(self@) {
                invariants::law_disconnecting_keeps_order(self@, connection_id);
            }
        }
        let ids = self.connection_sessions(connection_id);
        assert(fxmap::views(ids@).to_set() =~= sessions_of(self@, connection_id));
        fxmap::fx_remove(&mut self.connections, &connection_id);
        self.remove_sessions(&ids);
    }
}

} // verus!
