//! What holds of the server as a whole: its sessions and targets, who is told
//! what, and what is remembered.
use vstd::prelude::*;
use vstd::set_lib::*;

use crate::browser;
use crate::dispatch;
use crate::dispatch::Environment;
use crate::dispatch::Reaction;
use crate::encoding;
use crate::events;
use crate::events::NewGlobal;
use crate::events::Subscription;
use crate::fxmap;
use crate::invariants;
use crate::json;
use crate::json::Json;
use crate::model;
use crate::model::Audience;
use crate::model::State;
use crate::model::TicketView;
use crate::network;
use crate::network::HttpResponse;
use crate::outcomes;
use crate::outcomes::CreateOutcome;
use crate::protocol;
use crate::requests::Asked;
use crate::server;
use crate::session;
use crate::text;

verus! {

/// Attaching the same target twice for the same connection is the same as
/// attaching it once.
pub proof fn law_attaching_twice(state: State, connection_id: u64, target_id: u64)
    ensures
        state.attach(connection_id, target_id).attach(connection_id, target_id) == state.attach(
            connection_id,
            target_id,
        ),
        state.attach(connection_id, target_id).has_session(connection_id, target_id),
{
    let after = state.attach(connection_id, target_id);
    if !state.has_session(connection_id, target_id) {
        let id = text::decimal(state.next_session_number as nat);
        assert(after.sessions.contains_key(id));
        assert(after.sessions[id].connection_id == connection_id);
    }
}

/// A session that is new to the connection is the one that was created last.
pub proof fn law_new_session_is_the_last(
    state: State,
    connection_id: u64,
    target_id: u64,
    session_id: Seq<char>,
)
    requires
        invariants::wf(state),
        !state.has_session(connection_id, target_id),
        browser::is_last_session(
            state.attach(connection_id, target_id),
            connection_id,
            session_id,
        ),
    ensures
        session_id == text::decimal(state.next_session_number as nat),
        state.attach(connection_id, target_id).sessions[session_id] == model::new_session(
            state.next_session_number,
            connection_id,
            target_id,
        ),
{
    let after = state.attach(connection_id, target_id);
    let id = text::decimal(state.next_session_number as nat);
    let own = server::sessions_of(after, connection_id);
    assert(after.sessions.contains_key(id));
    assert(own.contains(id));
    if session_id != id {
        assert(state.sessions.contains_key(session_id));
    }
}

/// A session hears nothing until it asks for it.
pub proof fn law_new_session_hears_nothing(
    number: u64,
    connection_id: u64,
    session_target_id: u64,
    target_id: u64,
    audience: Audience,
)
    ensures
        !model::hears(
            model::new_session(number, connection_id, session_target_id),
            target_id,
            audience,
        ),
{
}

/// A connection takes its sessions with it, and no others.
pub proof fn law_disconnecting_closes_own_sessions(state: State, connection_id: u64)
    ensures
        !server::disconnected(state, connection_id).connections.contains_key(connection_id),
        forall|id: Seq<char>| #[trigger]
            server::disconnected(state, connection_id).sessions.contains_key(id) <==> (
            state.sessions.contains_key(id) && state.sessions[id].connection_id != connection_id),
        forall|id: Seq<char>|
            server::disconnected(state, connection_id).sessions.contains_key(id) ==>
                #[trigger] server::disconnected(state, connection_id).sessions[id]
                == state.sessions[id],
{
}

/// No session is attached to a target that was closed.
pub proof fn law_closed_target_has_no_sessions(
    state: State,
    connection_id: u64,
    id: i64,
    name: Seq<char>,
    session_id: Seq<char>,
)
    requires
        outcomes::close_finished(state, connection_id, id, name, true).sessions.contains_key(
            session_id,
        ),
    ensures
        state.frame_id(state.sessions[session_id].target_id) != name || !state.targets.contains_key(
            state.sessions[session_id].target_id,
        ),
{
}

/// An event reaches each session that is attached to the target and asked for
/// it, exactly once and under its session id, and nobody else.
pub proof fn law_event_reaches_its_audience(
    before: State,
    target_id: u64,
    audience: Audience,
    event: Json,
    after: State,
)
    requires
        model::announced(before, target_id, audience, event, after),
    ensures
        before.outbox.is_prefix_of(after.outbox),
        model::listeners(before.sessions, target_id, audience).finite(),
        after.outbox.len() - before.outbox.len() == model::listeners(
            before.sessions,
            target_id,
            audience,
        ).len(),
        forall|i: int|
            before.outbox.len() <= i < after.outbox.len() ==> is_addressed(
                before,
                target_id,
                audience,
                event,
                #[trigger] after.outbox[i],
            ),
        forall|id: Seq<char>| #[trigger]
            model::listeners(before.sessions, target_id, audience).contains(id)
                ==> after.outbox.skip(before.outbox.len() as int).contains(
                (before.sessions[id].connection_id, model::with_session(event, id)),
            ),
{
    let chosen = model::listeners(before.sessions, target_id, audience);
    let order = choose|order: Seq<Seq<char>>| #[trigger]
        fxmap::lists(order, chosen) && after == (State {
            outbox: before.outbox + model::addressed(order, before.sessions, event),
            ..before
        });
    fxmap::lemma_lists_len(order, chosen);
    let new = model::addressed(order, before.sessions, event);
    assert forall|i: int| before.outbox.len() <= i < after.outbox.len() implies is_addressed(
        before,
        target_id,
        audience,
        event,
        #[trigger] after.outbox[i],
    ) by {
        let id = order[i - before.outbox.len()];
        assert(order.contains(id));
        assert(chosen.contains(id));
        assert(after.outbox[i] == new[i - before.outbox.len()]);
    }
    assert(after.outbox.skip(before.outbox.len() as int) =~= new);
    assert forall|id: Seq<char>| #[trigger] chosen.contains(id) implies new.contains(
        (before.sessions[id].connection_id, model::with_session(event, id)),
    ) by {
        assert(order.contains(id));
        let i = choose|i: int| 0 <= i < order.len() && order[i] == id;
        assert(new[i] == (before.sessions[id].connection_id, model::with_session(event, id)));
    }
}

/// A message is an event, addressed to one of the sessions that it is for.
pub open spec fn is_addressed(
    state: State,
    target_id: u64,
    audience: Audience,
    event: Json,
    message: model::Sent,
) -> bool {
    exists|id: Seq<char>| #[trigger]
        model::listeners(state.sessions, target_id, audience).contains(id) && message == (
            state.sessions[id].connection_id,
            model::with_session(event, id),
        )
}

/// A command that creates a target is not answered at once: its reply is held
/// back.
pub proof fn law_reply_to_a_new_target_is_held_back(
    before: State,
    connection_id: u64,
    id: i64,
    webview_id: u64,
)
    ensures
        ({
            let after = outcomes::create_finished(
                before,
                connection_id,
                id,
                CreateOutcome::Created(webview_id),
            );
            &&& after.outbox == before.outbox
            &&& after.pending_targets[webview_id] == model::page_id(before.next_target_number)
            &&& after.pending_create_replies[webview_id] == (model::PendingReply {
                connection_id,
                id,
            })
        }),
{
}

/// What is queued stays queued, and in its place.
proof fn lemma_attach_extends(state: State, connection_id: u64, target_id: u64)
    ensures
        state.outbox.is_prefix_of(state.attach(connection_id, target_id).outbox),
        state.attach(connection_id, target_id).target_ids == state.target_ids,
        state.attach(connection_id, target_id).targets == state.targets,
        state.attach(connection_id, target_id).connections == state.connections,
{
}

proof fn lemma_attach_each_extends(state: State, order: Seq<u64>, target_id: u64)
    ensures
        state.outbox.is_prefix_of(events::attach_each(state, order, target_id).outbox),
        events::attach_each(state, order, target_id).target_ids == state.target_ids,
        events::attach_each(state, order, target_id).targets == state.targets,
    decreases order.len(),
{
    if order.len() > 0 {
        lemma_attach_each_extends(state, order.drop_last(), target_id);
        lemma_attach_extends(
            events::attach_each(state, order.drop_last(), target_id),
            order.last(),
            target_id,
        );
    }
}

/// What a new global leads to comes behind what was queued when it was
/// entered, and the targets stay as they were entered.
proof fn lemma_new_global_extends(before: State, global: NewGlobal, after: State)
    requires
        events::new_global_step(before, global, after),
        !global.is_worker,
    ensures
        events::global_entered(before, global).outbox.is_prefix_of(after.outbox),
        after.target_ids == events::global_entered(before, global).target_ids,
        after.targets == events::global_entered(before, global).targets,
{
    let target_id = global.browsing_context_id;
    let entered = events::global_entered(before, global);
    let previous = events::previous_pipeline(before, target_id);
    let context = before.next_execution_context_id;
    let (told, destroyed, created) = choose|told: State, destroyed: State, created: State| #[trigger]
        events::global_told(entered, previous, global, context, told, destroyed, created, after);
    assert(entered.outbox.is_prefix_of(told.outbox));
    assert(told.outbox.is_prefix_of(destroyed.outbox));
    assert(destroyed.outbox.is_prefix_of(created.outbox));
    if previous is None {
        let order = choose|order: Seq<u64>| #[trigger]
            fxmap::lists(
                order,
                events::subscribers(created.connections, Subscription::AutoAttach),
            ) && after == events::attach_each(created, order, target_id);
        lemma_attach_each_extends(created, order, target_id);
    }
    assert forall|i: int| 0 <= i < entered.outbox.len() implies entered.outbox[i]
        == after.outbox[i] by {
        assert(entered.outbox[i] == told.outbox[i]);
        assert(told.outbox[i] == destroyed.outbox[i]);
        assert(destroyed.outbox[i] == created.outbox[i]);
    }
}

/// A client gets the id of the target that it created as soon as the target's
/// browsing context shows up, and it can attach to it by then.
pub proof fn law_created_target_is_attachable(before: State, global: NewGlobal, after: State)
    requires
        events::new_global_step(before, global, after),
        !global.is_worker,
        !before.targets.contains_key(global.browsing_context_id),
        before.pending_targets.contains_key(global.webview_id),
        before.pending_create_replies.contains_key(global.webview_id),
    ensures
        ({
            let name = before.pending_targets[global.webview_id];
            let pending = before.pending_create_replies[global.webview_id];
            &&& after.outbox.len() > before.outbox.len()
            &&& after.outbox[before.outbox.len() as int] == (
                pending.connection_id,
                model::reply_json(pending.id, browser::single("targetId"@, Json::Text(name))),
            )
            &&& browser::named_target(after, browser::single("targetId"@, Json::Text(name)))
                == Some(global.browsing_context_id)
        }),
{
    lemma_new_global_extends(before, global, after);
    let entered = events::global_entered(before, global);
    let name = before.pending_targets[global.webview_id];
    let reply = entered.outbox[before.outbox.len() as int];
    assert(entered.outbox.len() == before.outbox.len() + 1);
    assert(after.outbox[before.outbox.len() as int] == reply);
}

/// Sessions that are there stay there when others are attached.
proof fn lemma_attach_keeps(
    state: State,
    connection_id: u64,
    target_id: u64,
    other_connection_id: u64,
    other_target_id: u64,
)
    requires
        invariants::wf(state),
        state.has_session(other_connection_id, other_target_id),
    ensures
        state.attach(connection_id, target_id).has_session(other_connection_id, other_target_id),
{
    let after = state.attach(connection_id, target_id);
    if !state.has_session(connection_id, target_id) {
        let id = choose|id: Seq<char>|
            state.sessions.contains_key(id) && (#[trigger] state.sessions[id]).connection_id
                == other_connection_id && state.sessions[id].target_id == other_target_id;
        let new_id = text::decimal(state.next_session_number as nat);
        if id == new_id {
            text::lemma_decimal_injective(
                state.sessions[id].number as nat,
                state.next_session_number as nat,
            );
        }
        assert(after.sessions.contains_key(id));
        assert(after.sessions[id] == state.sessions[id]);
    }
}

proof fn lemma_attach_targets_covers(
    state: State,
    connection_id: u64,
    order: Seq<u64>,
    target_id: u64,
)
    requires
        invariants::wf(state),
        state.next_session_number + order.len() <= u64::MAX,
        order.contains(target_id) || state.has_session(connection_id, target_id),
    ensures
        browser::attach_targets(state, connection_id, order).has_session(connection_id, target_id),
    decreases order.len(),
{
    if order.len() > 0 {
        let front = order.drop_last();
        let middle = browser::attach_targets(state, connection_id, front);
        invariants::lemma_attach_targets(state, connection_id, front);
        if order.last() == target_id {
            law_attaching_twice(middle, connection_id, target_id);
        } else {
            if order.contains(target_id) {
                let i = choose|i: int| 0 <= i < order.len() && order[i] == target_id;
                assert(front[i] == target_id);
            }
            lemma_attach_targets_covers(state, connection_id, front, target_id);
            lemma_attach_keeps(middle, connection_id, order.last(), connection_id, target_id);
        }
    }
}

/// A client that turns automatic attachment on has a session with every target.
pub proof fn law_auto_attach_covers_all_targets(
    before: State,
    connection_id: u64,
    id: i64,
    after: State,
    target_id: u64,
)
    requires
        invariants::wf(before),
        before.room(),
        browser::auto_attach_turned(before, connection_id, id, true, after),
        before.targets.contains_key(target_id),
    ensures
        after.has_session(connection_id, target_id),
{
    let set = browser::auto_attach_set(before, connection_id, true);
    let order = choose|order: Seq<u64>| #[trigger]
        fxmap::lists(order, before.targets.dom()) && after == browser::attach_targets(
            set,
            connection_id,
            order,
        ).answer(connection_id, id, model::nothing());
    fxmap::lemma_lists_len(order, before.targets.dom());
    if before.connections.contains_key(connection_id) {
        invariants::lemma_connection_changed(
            before,
            connection_id,
            set.connections[connection_id],
            set,
        );
    }
    assert(order.contains(target_id));
    lemma_attach_targets_covers(set, connection_id, order, target_id);
}

proof fn lemma_attach_each_covers(
    state: State,
    order: Seq<u64>,
    target_id: u64,
    connection_id: u64,
)
    requires
        invariants::wf(state),
        state.next_session_number + order.len() <= u64::MAX,
        order.contains(connection_id),
    ensures
        events::attach_each(state, order, target_id).has_session(connection_id, target_id),
    decreases order.len(),
{
    let front = order.drop_last();
    let middle = events::attach_each(state, front, target_id);
    invariants::lemma_attach_each(state, front, target_id);
    if order.last() == connection_id {
        law_attaching_twice(middle, connection_id, target_id);
    } else {
        let i = choose|i: int| 0 <= i < order.len() && order[i] == connection_id;
        assert(front[i] == connection_id);
        lemma_attach_each_covers(state, front, target_id, connection_id);
        lemma_attach_keeps(middle, order.last(), target_id, connection_id, target_id);
    }
}

/// A new target is attached to every client that asked for automatic
/// attachment.
pub proof fn law_new_target_is_attached_automatically(
    before: State,
    global: NewGlobal,
    after: State,
    connection_id: u64,
)
    requires
        invariants::wf(before),
        before.room(),
        events::new_global_step(before, global, after),
        !global.is_worker,
        !before.targets.contains_key(global.browsing_context_id),
        before.connections.contains_key(connection_id),
        before.connections[connection_id].auto_attach,
    ensures
        after.has_session(connection_id, global.browsing_context_id),
{
    let target_id = global.browsing_context_id;
    let entered = events::global_entered(before, global);
    let previous = events::previous_pipeline(before, target_id);
    let context = before.next_execution_context_id;
    let (told, destroyed, created) = choose|told: State, destroyed: State, created: State| #[trigger]
        events::global_told(entered, previous, global, context, told, destroyed, created, after);
    invariants::lemma_global_entered(before, global);
    invariants::lemma_outbox(entered, told);
    invariants::lemma_outbox(told, destroyed);
    invariants::lemma_outbox(destroyed, created);
    let chosen = events::subscribers(created.connections, Subscription::AutoAttach);
    let order = choose|order: Seq<u64>| #[trigger]
        fxmap::lists(order, chosen) && after == events::attach_each(created, order, target_id);
    fxmap::lemma_lists_len(order, chosen);
    assert(chosen.subset_of(created.connections.dom()));
    lemma_len_subset(chosen, created.connections.dom());
    assert(chosen.contains(connection_id));
    assert(order.contains(connection_id));
    lemma_attach_each_covers(created, order, target_id, connection_id);
}

/// A method that does not exist is refused by name, under the id of the
/// command, and has no effect.
pub proof fn law_unknown_method_is_refused(
    before: State,
    connection_id: u64,
    message: Json,
    user_agent: Seq<char>,
    now: Json,
    after: State,
    asked: Option<Asked>,
    id: i64,
)
    requires
        dispatch::message_step(before, connection_id, message, user_agent, now, after, asked),
        !dispatch::is_carrier(message),
        json::int_member(message, "id"@) == Some(id),
        match json::text_member(message, "sessionId"@) {
            None => browser::browser_command(dispatch::method_of(message)) is Unknown,
            Some(session_id) => {
                &&& session::is_own_session(
                    before,
                    TicketView { connection_id, id: Some(id), session_id },
                )
                &&& !text::begins_with(dispatch::method_of(message), "Target."@)
                &&& session::session_command(dispatch::method_of(message)) is Unknown
            },
        },
    ensures
        asked is None,
        ({
            let refusal = model::error_reply_json(
                id,
                protocol::ERROR_METHOD_NOT_FOUND,
                protocol::not_found_text(dispatch::method_of(message)),
            );
            after == before.send(
                connection_id,
                match json::text_member(message, "sessionId"@) {
                    None => refusal,
                    Some(session_id) => model::with_session(refusal, session_id),
                },
            )
        }),
{
}

/// A session that does not exist, or belongs to another connection, cannot be
/// used: nothing happens but that the command is refused.
pub proof fn law_sessions_are_private(
    before: State,
    connection_id: u64,
    message: Json,
    user_agent: Seq<char>,
    now: Json,
    after: State,
    asked: Option<Asked>,
    session_id: Seq<char>,
)
    requires
        dispatch::message_step(before, connection_id, message, user_agent, now, after, asked),
        !dispatch::is_carrier(message),
        json::text_member(message, "sessionId"@) == Some(session_id),
        !before.sessions.contains_key(session_id) || before.sessions[session_id].connection_id
            != connection_id,
    ensures
        asked is None,
        after == match json::int_member(message, "id"@) {
            Some(id) => before.refuse(
                connection_id,
                id,
                protocol::ERROR_SERVER_ERROR,
                "Session not found"@,
            ),
            None => before,
        },
{
}

proof fn lemma_unpacked_further(message: Json, next: Json, times: nat, inner: Json)
    requires
        dispatch::carried(message) == Some(next),
    ensures
        dispatch::unpacked(message, times + 1, inner) == dispatch::unpacked(next, times, inner),
{
}

/// A message that another one carries is handled as if it had come by itself.
pub proof fn law_carried_message_is_handled(
    before: State,
    connection_id: u64,
    message: Json,
    carried: Json,
    environment: Environment,
    after: State,
    reaction: Reaction,
)
    requires
        dispatch::carried(message) == Some(carried),
    ensures
        dispatch::handled(before, connection_id, message, environment, after, reaction)
            == dispatch::handled(before, connection_id, carried, environment, after, reaction),
{
    if dispatch::handled(before, connection_id, message, environment, after, reaction) {
        let (times, inner, queued) = choose|times: nat, inner: Json, queued: State| #[trigger]
            dispatch::message_handled(
                before,
                connection_id,
                message,
                environment,
                times,
                inner,
                queued,
                after,
                reaction,
            );
        assert(times > 0);
        let less = (times - 1) as nat;
        lemma_unpacked_further(message, carried, less, inner);
        assert(dispatch::message_handled(
            before,
            connection_id,
            carried,
            environment,
            less,
            inner,
            queued,
            after,
            reaction,
        ));
    }
    if dispatch::handled(before, connection_id, carried, environment, after, reaction) {
        let (times, inner, queued) = choose|times: nat, inner: Json, queued: State| #[trigger]
            dispatch::message_handled(
                before,
                connection_id,
                carried,
                environment,
                times,
                inner,
                queued,
                after,
                reaction,
            );
        lemma_unpacked_further(message, carried, times, inner);
        assert(dispatch::message_handled(
            before,
            connection_id,
            message,
            environment,
            times + 1,
            inner,
            queued,
            after,
            reaction,
        ));
    }
}

/// The body of a response that just came in, unless it is too large, can be had
/// from `Network.getResponseBody`: as text, or in base64, from which the very
/// bytes can be had back.
pub proof fn law_response_body_is_served(
    before: State,
    request_id: Seq<char>,
    response: HttpResponse,
    now: Json,
    after: State,
    ticket: TicketView,
    body: Seq<u8>,
)
    requires
        invariants::wf(before),
        before.room(),
        network::response_step(before, request_id, response, now, after),
        before.network_requests.contains_key(request_id),
        before.network_requests[request_id].finished is None,
        network::kept_body(response) == Some(body),
    ensures
        ({
            let mime_type = protocol::mime_type(network::response_headers(response));
            &&& session::body_step(
                after,
                ticket,
                browser::single("requestId"@, Json::Text(request_id)),
            ) == after.session_answer(ticket, session::body_reply(body, mime_type))
            &&& !session::is_text(mime_type) ==> encoding::base64_bytes(
                encoding::base64_text(body),
            ) == body
        }),
{
    let (remembered, received) = choose|remembered: State, received: State| #[trigger]
        network::response_told(before, request_id, response, now, remembered, received, after);
    invariants::lemma_remembered(before, request_id, response, remembered);
    encoding::law_base64_can_be_undone(body);
}

/// Only so many finished requests are remembered, and no body is larger than
/// what may be captured.
pub proof fn law_memory_is_bounded(state: State, request_id: Seq<char>)
    requires
        invariants::wf(state),
    ensures
        network::finished_requests(state.network_requests).len()
            <= model::MAX_REMEMBERED_NETWORK_REQUESTS,
        state.network_requests.contains_key(request_id) ==> (
        state.network_requests[request_id].body matches Some(body) ==> body.len()
            <= model::MAX_CAPTURED_BODY_SIZE),
{
    if state.network_requests.contains_key(request_id) {
        assert(invariants::request_wf(state, state.network_requests[request_id]));
    }
}

/// A target id leads to one target: no two targets have the same id.
pub proof fn law_target_ids_are_unique(state: State, a: u64, b: u64)
    requires
        invariants::wf(state),
        state.targets.contains_key(a),
        state.targets.contains_key(b),
        state.targets[a].target_id_string == state.targets[b].target_id_string,
    ensures
        a == b,
{
}

} // verus!
