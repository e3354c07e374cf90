//! What holds of connections, of what is delivered to them, and of how messages
//! and events find their way.
use vstd::prelude::*;
use vstd::utf8::*;

use crate::browser;
use crate::control;
use crate::control::ChromeMsg;
use crate::control::ControlMsg;
use crate::control::ScriptMsg;
use crate::dispatch;
use crate::dispatch::Environment;
use crate::dispatch::Reaction;
use crate::events;
use crate::json;
use crate::json::Json;
use crate::model::CdpConnection;
use crate::model::Sent;
use crate::model::State;
use crate::model::Ticket;
use crate::model::TicketView;
use crate::network;
use crate::network::NetworkEvent;
use crate::observe;
use crate::protocol;
use crate::requests;
use crate::requests::Asked;
use crate::requests::Request;
use crate::server;
use crate::server::Delivery;
use crate::session;
use crate::websocket;

verus! {

/// The messages of a queue that go to a connection, in order.
pub open spec fn messages_to(queue: Seq<Sent>, connection_id: u64) -> Seq<Json>
    decreases queue.len(),
{
    if queue.len() == 0 {
        Seq::empty()
    } else {
        let front = messages_to(queue.drop_last(), connection_id);
        if queue.last().0 == connection_id {
            front.push(queue.last().1)
        } else {
            front
        }
    }
}

/// What is written to a connection, in order.
pub open spec fn written_to(list: Seq<(u64, Seq<u8>)>, connection_id: u64) -> Seq<Seq<u8>>
    decreases list.len(),
{
    if list.len() == 0 {
        Seq::empty()
    } else {
        let front = written_to(list.drop_last(), connection_id);
        if list.last().0 == connection_id {
            front.push(list.last().1)
        } else {
            front
        }
    }
}

/// A connection that is there is written every message that is queued for it, in
/// order, and no other; one that is gone is written nothing.
pub proof fn law_messages_are_delivered(
    outbox: Seq<Sent>,
    connections: Map<u64, CdpConnection>,
    connection_id: u64,
)
    ensures
        ({
            let written = written_to(server::delivered(outbox, connections), connection_id);
            let messages = messages_to(outbox, connection_id);
            if connections.contains_key(connection_id) {
                &&& written.len() == messages.len()
                &&& forall|i: int|
                    0 <= i < written.len() ==> #[trigger] written[i] == server::frames(messages[i])
            } else {
                written.len() == 0
            }
        }),
    decreases outbox.len(),
{
    if outbox.len() > 0 {
        let front = outbox.drop_last();
        law_messages_are_delivered(front, connections, connection_id);
        let all = server::delivered(outbox, connections);
        let some = server::delivered(front, connections);
        if connections.contains_key(outbox.last().0) {
            assert(all.drop_last() =~= some);
        }
        let written = written_to(all, connection_id);
        let messages = messages_to(outbox, connection_id);
        let less = written_to(some, connection_id);
        let fewer = messages_to(front, connection_id);
        if connections.contains_key(connection_id) {
            assert forall|i: int| 0 <= i < written.len() implies #[trigger] written[i]
                == server::frames(messages[i]) by {
                if i < less.len() {
                    assert(written[i] == less[i]);
                    assert(messages[i] == fewer[i]);
                }
            }
        }
    }
}

/// A message goes out as the UTF-8 of its JSON text, in the frames of a text
/// message: a client puts that text together from them.
pub proof fn law_message_arrives_as_text(message: Json)
    ensures
        ({
            let bytes = encode_utf8(json::json_text(message));
            websocket::received(1, server::frames(message), websocket::frame_count(bytes.len()))
                == Some(bytes)
        }),
{
    websocket::law_written_message_arrives(1, encode_utf8(json::json_text(message)));
}

/// Delivering empties the queue, and changes nothing else.
pub proof fn law_delivering_empties_the_queue(state: State)
    ensures
        server::flushed(state).outbox.len() == 0,
        server::flushed(state) == (State { outbox: server::flushed(state).outbox, ..state }),
{
}

/// A server begins with nothing, and with its names.
pub proof fn law_server_begins_with_nothing(url: Seq<char>, browser_id: Seq<char>)
    ensures
        ({
            let state = server::initial(url, browser_id);
            &&& state.web_socket_debugger_url == url
            &&& state.browser_id == browser_id
            &&& state.outbox.len() == 0
            &&& forall|id: u64| !#[trigger] state.connections.contains_key(id)
            &&& forall|id: Seq<char>| !#[trigger] state.sessions.contains_key(id)
            &&& forall|id: u64| !#[trigger] state.targets.contains_key(id)
            &&& forall|id: Seq<char>| !#[trigger] state.target_ids.contains_key(id)
            &&& forall|id: u64| !#[trigger] state.pipelines.contains_key(id)
            &&& forall|id: Seq<char>| !#[trigger] state.network_requests.contains_key(id)
            &&& forall|id: i64| !#[trigger] state.dom_nodes.contains_key(id)
            &&& forall|id: u64| !#[trigger] state.pending_targets.contains_key(id)
            &&& forall|id: u64| !#[trigger] state.pending_create_replies.contains_key(id)
            &&& state.next_connection_id == 0
            &&& state.next_session_number == 0
            &&& state.next_execution_context_id == 0
            &&& state.next_node_id == 0
            &&& state.next_target_number == 0
            &&& state.next_finish_number == 0
        }),
{
}

/// There is room as long as no number that is given out next is the last one, and
/// there are session numbers for all targets and all connections.
pub proof fn law_room(state: State, url: Seq<char>, browser_id: Seq<char>)
    ensures
        state.room() <==> {
            &&& state.next_connection_id < 0xFFFF_FFFF_FFFF_FFFF
            &&& state.next_session_number < 0xFFFF_FFFF_FFFF_FFFF
            &&& state.next_target_number < 0xFFFF_FFFF_FFFF_FFFF
            &&& state.next_finish_number < 0xFFFF_FFFF_FFFF_FFFF
            &&& state.next_execution_context_id < 0x7FFF_FFFF_FFFF_FFFF
            &&& state.targets.dom().len() <= 0xFFFF_FFFF_FFFF_FFFF - state.next_session_number
            &&& state.connections.dom().len() <= 0xFFFF_FFFF_FFFF_FFFF - state.next_session_number
        },
        server::initial(url, browser_id).room(),
{
}

/// A new connection has the next id, and has asked for nothing yet; the others
/// are as before.
pub proof fn law_new_connection(state: State)
    requires
        state.next_connection_id < u64::MAX,
    ensures
        ({
            let after = control::connected(state);
            let connection = after.connections[state.next_connection_id];
            &&& after.connections == state.connections.insert(state.next_connection_id, connection)
            &&& !connection.auto_attach
            &&& !connection.target_discovery
            &&& after.next_connection_id == state.next_connection_id + 1
            &&& after == (State {
                connections: after.connections,
                next_connection_id: after.next_connection_id,
                ..state
            })
        }),
{
}

/// A connection that goes takes its sessions with it, and nothing else changes.
pub proof fn law_connection_goes(state: State, gone: u64)
    ensures
        ({
            let after = server::disconnected(state, gone);
            &&& after.connections == state.connections.remove(gone)
            &&& after == (State {
                connections: after.connections,
                sessions: after.sessions,
                ..state
            })
            &&& forall|id: Seq<char>| #[trigger]
                after.sessions.contains_key(id) <==> state.sessions.contains_key(id)
                    && state.sessions[id].connection_id != gone
            &&& forall|id: Seq<char>|
                after.sessions.contains_key(id) ==> #[trigger] after.sessions[id]
                    == state.sessions[id]
        }),
{
}

/// When the server exits, no connection is left, and no session of one that was
/// there; nothing else changes, and nobody is told anything.
pub proof fn law_server_exit_closes_all(before: State, now: Json, after: State)
    requires
        control::control_step(
            before,
            ControlMsg::FromChrome(ChromeMsg::ServerExit),
            now,
            after,
        ),
    ensures
        forall|id: u64| !#[trigger] after.connections.contains_key(id),
        forall|id: Seq<char>| #[trigger]
            after.sessions.contains_key(id) <==> before.sessions.contains_key(id)
                && !before.connections.contains_key(before.sessions[id].connection_id),
        forall|id: Seq<char>|
            after.sessions.contains_key(id) ==> #[trigger] after.sessions[id]
                == before.sessions[id],
        after == (State {
            connections: after.connections,
            sessions: after.sessions,
            ..before
        }),
{
}

/// Every browser event finds its way: what it reports is handled as it is, and
/// what is not reported, such as the console of a worker, changes nothing.
pub proof fn law_events_find_their_way(before: State, msg: ControlMsg, now: Json, after: State)
    requires
        control::control_step(before, msg, now, after),
    ensures
        match msg {
            ControlMsg::ClientExited => after == before,
            ControlMsg::FromChrome(ChromeMsg::Other) => after == before,
            ControlMsg::FromChrome(ChromeMsg::ServerExit) => true,
            ControlMsg::FromChrome(ChromeMsg::NetworkEvent { request_id, event }) => match event {
                NetworkEvent::HttpRequest(request) => network::request_step(
                    before,
                    request_id@,
                    request,
                    now,
                    after,
                ),
                NetworkEvent::HttpResponse(response) => network::response_step(
                    before,
                    request_id@,
                    response,
                    now,
                    after,
                ),
                NetworkEvent::HttpRequestUpdate => after == before,
                NetworkEvent::SecurityInfo => after == before,
            },
            ControlMsg::FromScript(msg) => match msg {
                ScriptMsg::NewGlobal(global) => events::new_global_step(before, global, after),
                ScriptMsg::NavigationStart { browsing_context_id, url, origin } => {
                    events::navigation_start_step(
                        before,
                        browsing_context_id,
                        url@,
                        origin@,
                        after,
                    )
                },
                ScriptMsg::NavigationStop(stop) => events::navigation_stop_step(
                    before,
                    stop,
                    after,
                ),
                ScriptMsg::ConsoleApi { pipeline_id, message, is_worker } => {
                    &&& is_worker ==> after == before
                    &&& !is_worker ==> events::console_step(before, pipeline_id, message, after)
                },
                ScriptMsg::ClearConsole { pipeline_id, is_worker } => {
                    &&& is_worker ==> after == before
                    &&& !is_worker ==> events::clear_console_step(before, pipeline_id, after)
                },
                ScriptMsg::TitleChanged { pipeline_id, title } => events::title_step(
                    before,
                    pipeline_id,
                    title@,
                    after,
                ),
                ScriptMsg::ReportPageError { pipeline_id, error } => events::page_error_step(
                    before,
                    pipeline_id,
                    error,
                    after,
                ),
                ScriptMsg::Other => after == before,
            },
        },
{
}

/// The method of a message: its text, or none.
pub open spec fn is_method(message: Json, method: Seq<char>) -> bool {
    match observe::part(message, "method"@) {
        Json::Text(text) => method == text,
        _ => method.len() == 0,
    }
}

/// The parameters of a message: what it has, or an empty object.
pub open spec fn is_params(message: Json, params: Json) -> bool {
    if observe::holds(message, "params"@) {
        params == observe::part(message, "params"@)
    } else {
        params == Json::Object(Map::empty())
    }
}

/// A message with a session id is a command of that session, and one without is a
/// command to the browser; its id, its method and its parameters are those of the
/// message, and it comes from the connection that sent it.
pub proof fn law_messages_find_their_way(
    before: State,
    connection_id: u64,
    message: Json,
    user_agent: Seq<char>,
    now: Json,
    after: State,
    asked: Option<Asked>,
    method: Seq<char>,
    params: Json,
)
    requires
        dispatch::message_step(before, connection_id, message, user_agent, now, after, asked),
        is_method(message, method),
        is_params(message, params),
        method != "Target.sendMessageToTarget"@,
    ensures
        ({
            let id = json::int_in(observe::part(message, "id"@));
            match observe::part(message, "sessionId"@) {
                Json::Text(session_id) => session::session_step(
                    before,
                    TicketView { connection_id, id, session_id },
                    method,
                    params,
                    user_agent,
                    now,
                    after,
                    asked,
                ),
                _ => browser::browser_step(
                    before,
                    connection_id,
                    id,
                    method,
                    params,
                    user_agent,
                    after,
                    asked,
                ),
            }
        }),
{
    assert(method =~= dispatch::method_of(message));
}

/// A message that carries no other is handled by itself, and what it led to is
/// delivered.
pub proof fn law_plain_message_is_handled(
    before: State,
    connection_id: u64,
    message: Json,
    environment: Environment,
    after: State,
    reaction: Reaction,
)
    requires
        dispatch::handled(before, connection_id, message, environment, after, reaction),
        observe::part(message, "method"@) != Json::Text("Target.sendMessageToTarget"@),
    ensures
        exists|queued: State| #[trigger]
            dispatch::message_step(
                before,
                connection_id,
                message,
                environment.user_agent@,
                json::json_of(environment.now),
                queued,
                requests::asked(reaction.request),
            ) && after == (State { outbox: Seq::empty(), ..queued }) && server::deliveries(
                reaction.deliveries@,
            ) == server::delivered(queued.outbox, queued.connections),
{
    law_carried_message(message);
    let (times, inner, queued) = choose|times: nat, inner: Json, queued: State| #[trigger]
        dispatch::message_handled(
            before,
            connection_id,
            message,
            environment,
            times,
            inner,
            queued,
            after,
            reaction,
        );
    assert(times == 0);
    assert(inner == message);
}

/// What is asked of the browser says what the server wants: each part of a request
/// is read as it is.
pub proof fn law_requests_are_read_as_they_are(request: Request)
    ensures
        match request {
            Request::CreateTarget { connection_id, id, url } => request@ == (Asked::CreateTarget {
                connection_id,
                id,
                url: url@,
            }),
            Request::CloseTarget { connection_id, id, target_id, webview_id } => request@ == (
            Asked::CloseTarget { connection_id, id, target_id: target_id@, webview_id }),
            Request::Focus { webview_id } => request@ == (Asked::Focus { webview_id }),
            Request::Script { ticket, pipeline_id, action } => request@ == (Asked::Script {
                ticket: read_ticket(ticket),
                pipeline_id,
                action,
            }),
            Request::Navigate { ticket, frame_id, url, pipeline } => {
                &&& request@ matches Asked::Navigate { ticket: t, frame_id: f, url: u, pipeline: p }
                &&& t == read_ticket(ticket)
                &&& f == frame_id@
                &&& u == url@
                &&& match pipeline {
                    Ok(id) => p == Ok::<u64, Seq<char>>(id),
                    Err(reason) => p == Err::<u64, Seq<char>>(reason@),
                }
            },
            Request::Evaluate { ticket, pipeline_id, expression } => request@ == (Asked::Evaluate {
                ticket: read_ticket(ticket),
                pipeline_id,
                expression: expression@,
            }),
            Request::GetDocument { ticket, pipeline_id, depth } => request@ == (
            Asked::GetDocument { ticket: read_ticket(ticket), pipeline_id, depth }),
            Request::GetChildren { ticket, node_id, pipeline_id, unique_id, depth } => request@ == (
            Asked::GetChildren {
                ticket: read_ticket(ticket),
                node_id,
                pipeline_id,
                unique_id: unique_id@,
                depth,
            }),
            Request::GetLayout { ticket, pipeline_id, unique_id } => request@ == (
            Asked::GetLayout {
                ticket: read_ticket(ticket),
                pipeline_id,
                unique_id: unique_id@,
            }),
            Request::Screenshot { ticket, webview_id, clip } => {
                &&& request@ matches Asked::Screenshot { ticket: t, webview_id: w, clip: c }
                &&& t == read_ticket(ticket)
                &&& w == webview_id
                &&& match clip {
                    Some(clip) => c matches Some(read) && read.x == json::json_of(clip.x) && read.y
                        == json::json_of(clip.y) && read.width == json::json_of(clip.width)
                        && read.height == json::json_of(clip.height),
                    None => c is None,
                }
            },
        },
{
}

/// What a ticket says: the connection, the id of the command, and the session.
pub open spec fn read_ticket(ticket: Ticket) -> TicketView {
    TicketView {
        connection_id: ticket.connection_id,
        id: ticket.id,
        session_id: ticket.session_id@,
    }
}

/// What is handed out for delivery goes to the connection that it names.
pub proof fn law_deliveries_are_read_as_they_are(list: Seq<Delivery>, i: int)
    requires
        0 <= i < list.len(),
    ensures
        server::deliveries(list).len() == list.len(),
        server::deliveries(list)[i].0 == list[i].connection_id,
        server::deliveries(list)[i].1 == list[i].bytes@,
{
}

/// A message that is to carry another and does not is refused, if it has an id,
/// and nothing else happens.
pub proof fn law_broken_carrier_is_refused(
    before: State,
    from: u64,
    message: Json,
    user_agent: Seq<char>,
    now: Json,
    after: State,
    asked: Option<Asked>,
    connection_id: u64,
    session: Option<Seq<char>>,
)
    requires
        dispatch::message_step(before, from, message, user_agent, now, after, asked),
        observe::part(message, "method"@) == Json::Text("Target.sendMessageToTarget"@),
    ensures
        asked is None,
        after == (State { outbox: after.outbox, ..before }),
        ({
            let new = observe::news(before, after, connection_id, session);
            let id = json::int_in(observe::part(message, "id"@));
            if id is Some && connection_id == from && session is None {
                new.len() == 1 && observe::is_refusal(
                    new[0],
                    id->Some_0,
                    -32600,
                    "invalid 'message' parameter"@,
                )
            } else {
                new.len() == 0
            }
        }),
{
    match json::int_member(message, "id"@) {
        Some(id) => {
            observe::lemma_refuse(
                before,
                from,
                id,
                protocol::ERROR_INVALID_REQUEST,
                "invalid 'message' parameter"@,
                connection_id,
                session,
            );
        },
        None => {
            observe::lemma_quiet(before, after, connection_id, session);
        },
    }
}

/// The message that another carries is the JSON value of the text in its
/// parameters; no other message carries one.
pub proof fn law_carried_message(message: Json)
    ensures
        dispatch::carried(message) == if observe::part(message, "method"@) == Json::Text(
            "Target.sendMessageToTarget"@,
        ) {
            match observe::part(observe::part(message, "params"@), "message"@) {
                Json::Text(text) => json::json_parse(text),
                _ => None,
            }
        } else {
            None
        },
{
    reveal_strlit("Target.sendMessageToTarget");
    assert("Target.sendMessageToTarget"@.len() > 0);
}

/// The integer that a JSON value holds is itself, where 64 bits can hold it; no
/// other value holds one.
pub proof fn law_integers_in_messages(value: Json)
    ensures
        match value {
            Json::Int(n) => if -0x8000_0000_0000_0000 <= n <= 0x7FFF_FFFF_FFFF_FFFF {
                json::int_in(value) matches Some(found) && found == n
            } else {
                json::int_in(value) is None
            },
            _ => json::int_in(value) is None,
        },
{
}

} // verus!
