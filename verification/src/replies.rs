//! Who is answered: a command with an id gets exactly one reply, and nobody else
//! gets a message that could be taken for one.
use vstd::prelude::*;

use crate::browser;
use crate::browser::BrowserCommand;
use crate::control;
use crate::control::ChromeMsg;
use crate::control::ControlMsg;
use crate::control::ScriptMsg;
use crate::dispatch;
use crate::dom;
use crate::dom::NodeTree;
use crate::events;
use crate::events::NewGlobal;
use crate::events::Subscription;
use crate::fxmap;
use crate::json;
use crate::json::Json;
use crate::model;
use crate::model::Audience;
use crate::model::Sent;
use crate::model::State;
use crate::model::TicketView;
use crate::network;
use crate::network::NetworkEvent;
use crate::outcomes;
use crate::outcomes::CreateOutcome;
use crate::protocol;
use crate::requests::Asked;
use crate::session;
use crate::session::Domain;
use crate::session::SessionCommand;
use crate::text;

verus! {

/// A message has an id, as replies do and events do not.
pub open spec fn has_id(message: Json) -> bool {
    json::member(message, "id"@) is Some
}

/// A message is the reply to a command: it goes to the connection that the
/// command came from, has the id of the command, and either a result or an
/// error.
pub open spec fn is_reply_to(message: Sent, connection_id: u64, id: i64) -> bool {
    &&& message.0 == connection_id
    &&& json::member(message.1, "id"@) == Some(Json::Int(id as int))
    &&& (json::member(message.1, "result"@) is Some) != (json::member(message.1, "error"@) is Some)
}

/// Of the messages that were queued since, exactly one has an id, and is the
/// reply to the given command of the given connection; where there is no such
/// command, no message has an id.
pub open spec fn replied(before: Seq<Sent>, after: Seq<Sent>, command: Option<(u64, i64)>) -> bool {
    &&& before.is_prefix_of(after)
    &&& match command {
        Some(command) => exists|at: int| #[trigger] is_only_reply(before, after, command, at),
        None => forall|i: int|
            before.len() <= i < after.len() ==> !has_id((#[trigger] after[i]).1),
    }
}

/// Of the messages that were queued since, the one at `at` is the reply to the
/// command, and no other has an id.
pub open spec fn is_only_reply(
    before: Seq<Sent>,
    after: Seq<Sent>,
    command: (u64, i64),
    at: int,
) -> bool {
    &&& before.len() <= at < after.len()
    &&& is_reply_to(after[at], command.0, command.1)
    &&& forall|i: int|
        before.len() <= i < after.len() && i != at ==> !has_id((#[trigger] after[i]).1)
}

/// The reply that a command is owed; one without an id is owed none.
pub open spec fn owed(connection_id: u64, id: Option<i64>) -> Option<(u64, i64)> {
    match id {
        Some(id) => Some((connection_id, id)),
        None => None,
    }
}

/// The reply that is owed once what is asked of the browser is done.
pub open spec fn owed_later(asked: Asked) -> Option<(u64, i64)> {
    match asked {
        Asked::CreateTarget { connection_id, id, .. } => Some((connection_id, id)),
        Asked::CloseTarget { connection_id, id, .. } => Some((connection_id, id)),
        Asked::Focus { .. } => None,
        Asked::Script { ticket, .. } => owed(ticket.connection_id, ticket.id),
        Asked::Navigate { ticket, .. } => owed(ticket.connection_id, ticket.id),
        Asked::Evaluate { ticket, .. } => owed(ticket.connection_id, ticket.id),
        Asked::GetDocument { ticket, .. } => owed(ticket.connection_id, ticket.id),
        Asked::GetChildren { ticket, .. } => owed(ticket.connection_id, ticket.id),
        Asked::GetLayout { ticket, .. } => owed(ticket.connection_id, ticket.id),
        Asked::Screenshot { ticket, .. } => owed(ticket.connection_id, ticket.id),
    }
}

/// Something is asked of the browser that has to be handed back.
pub open spec fn is_awaited(asked: Option<Asked>) -> bool {
    asked is Some && !(asked->Some_0 is Focus)
}

/// A command was answered as it is owed, now or later.
pub open spec fn is_settled(
    before: State,
    command: Option<(u64, i64)>,
    after: State,
    asked: Option<Asked>,
) -> bool {
    if is_awaited(asked) {
        replied(before.outbox, after.outbox, None) && owed_later(asked->Some_0) == command
    } else {
        replied(before.outbox, after.outbox, command)
    }
}

proof fn lemma_names()
    ensures
        "id"@ != "result"@,
        "id"@ != "error"@,
        "id"@ != "sessionId"@,
        "id"@ != "method"@,
        "id"@ != "params"@,
        "result"@ != "error"@,
        "result"@ != "sessionId"@,
        "error"@ != "sessionId"@,
{
    reveal_strlit("id");
    reveal_strlit("result");
    reveal_strlit("error");
    reveal_strlit("sessionId");
    reveal_strlit("method");
    reveal_strlit("params");
    assert("id"@.len() == 2);
    assert("result"@.len() == 6);
    assert("error"@.len() == 5);
    assert("sessionId"@.len() == 9);
    assert("method"@.len() == 6);
    assert("params"@.len() == 6);
}

proof fn lemma_with_session(message: Json, session_id: Seq<char>)
    ensures
        has_id(message) == has_id(model::with_session(message, session_id)),
        message is Object ==> forall|connection_id: u64, id: i64|
            is_reply_to((connection_id, message), connection_id, id) ==> #[trigger] is_reply_to(
                (connection_id, model::with_session(message, session_id)),
                connection_id,
                id,
            ),
{
    lemma_names();
}

proof fn lemma_push_reply(queue: Seq<Sent>, message: Sent, connection_id: u64, id: i64)
    requires
        is_reply_to(message, connection_id, id),
    ensures
        replied(queue, queue.push(message), Some((connection_id, id))),
{
    let longer = queue.push(message);
    assert(queue.is_prefix_of(longer));
    let command = Some((connection_id, id));
    assert(is_only_reply(queue, longer, command->Some_0, queue.len() as int));
    assert(replied(queue, longer, command));
}

/// Messages without an id in front of a reply, or behind it, change nothing.
proof fn lemma_compose(
    before: Seq<Sent>,
    middle: Seq<Sent>,
    after: Seq<Sent>,
    first: Option<(u64, i64)>,
    second: Option<(u64, i64)>,
)
    requires
        replied(before, middle, first),
        replied(middle, after, second),
        first is None || second is None,
    ensures
        replied(before, after, if first is None { second } else { first }),
{
    assert forall|i: int| before.len() <= i < middle.len() implies after[i] == middle[i] by {}
    if let Some(command) = first {
        let at = choose|at: int| #[trigger] is_only_reply(before, middle, command, at);
        assert(is_only_reply(before, after, command, at));
    } else if let Some(command) = second {
        let at = choose|at: int| #[trigger] is_only_reply(middle, after, command, at);
        assert(is_only_reply(before, after, command, at));
    }
}

proof fn lemma_replies(state: State, connection_id: u64, id: i64)
    ensures
        forall|result: Json|
            replied(
                state.outbox,
                (#[trigger] state.answer(connection_id, id, result)).outbox,
                Some((connection_id, id)),
            ),
        forall|code: i64, message: Seq<char>|
            replied(
                state.outbox,
                (#[trigger] state.refuse(connection_id, id, code, message)).outbox,
                Some((connection_id, id)),
            ),
{
    lemma_names();
    assert forall|result: Json| replied(
        state.outbox,
        (#[trigger] state.answer(connection_id, id, result)).outbox,
        Some((connection_id, id)),
    ) by {
        lemma_push_reply(
            state.outbox,
            (connection_id, model::reply_json(id, result)),
            connection_id,
            id,
        );
    }
    assert forall|code: i64, message: Seq<char>| replied(
        state.outbox,
        (#[trigger] state.refuse(connection_id, id, code, message)).outbox,
        Some((connection_id, id)),
    ) by {
        lemma_push_reply(
            state.outbox,
            (connection_id, model::error_reply_json(id, code, message)),
            connection_id,
            id,
        );
    }
}

proof fn lemma_session_replies(state: State, ticket: TicketView)
    ensures
        forall|result: Json|
            replied(
                state.outbox,
                (#[trigger] state.session_answer(ticket, result)).outbox,
                owed(ticket.connection_id, ticket.id),
            ),
        forall|code: i64, message: Seq<char>|
            replied(
                state.outbox,
                (#[trigger] state.session_refuse(ticket, code, message)).outbox,
                owed(ticket.connection_id, ticket.id),
            ),
{
    if let Some(id) = ticket.id {
        let connection_id = ticket.connection_id;
        let session_id = ticket.session_id;
        lemma_names();
        assert forall|result: Json| replied(
            state.outbox,
            (#[trigger] state.session_answer(ticket, result)).outbox,
            Some((connection_id, id)),
        ) by {
            lemma_with_session(model::reply_json(id, result), session_id);
            lemma_push_reply(
                state.outbox,
                (connection_id, model::with_session(model::reply_json(id, result), session_id)),
                connection_id,
                id,
            );
        }
        assert forall|code: i64, message: Seq<char>| replied(
            state.outbox,
            (#[trigger] state.session_refuse(ticket, code, message)).outbox,
            Some((connection_id, id)),
        ) by {
            let refusal = model::error_reply_json(id, code, message);
            lemma_with_session(refusal, session_id);
            lemma_push_reply(
                state.outbox,
                (connection_id, model::with_session(refusal, session_id)),
                connection_id,
                id,
            );
        }
    }
}

/// An event that goes out answers nobody.
proof fn lemma_announced(
    before: State,
    target_id: u64,
    audience: Audience,
    event: Json,
    after: State,
)
    requires
        model::announced(before, target_id, audience, event, after),
        !has_id(event),
    ensures
        replied(before.outbox, after.outbox, None),
{
    let chosen = model::listeners(before.sessions, target_id, audience);
    let order = choose|order: Seq<Seq<char>>| #[trigger]
        fxmap::lists(order, chosen) && after == (State {
            outbox: before.outbox + model::addressed(order, before.sessions, event),
            ..before
        });
    assert forall|i: int| before.outbox.len() <= i < after.outbox.len() implies !has_id(
        (#[trigger] after.outbox[i]).1,
    ) by {
        lemma_with_session(event, order[i - before.outbox.len()]);
    }
}

proof fn lemma_attach(state: State, connection_id: u64, target_id: u64)
    ensures
        replied(state.outbox, state.attach(connection_id, target_id).outbox, None),
{
    if !state.has_session(connection_id, target_id) {
        let session_id = text::decimal(state.next_session_number as nat);
        let message = model::attached_json(session_id, state.target_info(target_id));
        lemma_names();
        assert(!has_id(message));
    }
}

proof fn lemma_attach_targets(state: State, connection_id: u64, order: Seq<u64>)
    ensures
        replied(
            state.outbox,
            browser::attach_targets(state, connection_id, order).outbox,
            None,
        ),
    decreases order.len(),
{
    if order.len() > 0 {
        let middle = browser::attach_targets(state, connection_id, order.drop_last());
        lemma_attach_targets(state, connection_id, order.drop_last());
        lemma_attach(middle, connection_id, order.last());
        lemma_compose(
            state.outbox,
            middle.outbox,
            middle.attach(connection_id, order.last()).outbox,
            None,
            None,
        );
    }
}

proof fn lemma_attach_each(state: State, order: Seq<u64>, target_id: u64)
    ensures
        replied(state.outbox, events::attach_each(state, order, target_id).outbox, None),
    decreases order.len(),
{
    if order.len() > 0 {
        let middle = events::attach_each(state, order.drop_last(), target_id);
        lemma_attach_each(state, order.drop_last(), target_id);
        lemma_attach(middle, order.last(), target_id);
        lemma_compose(
            state.outbox,
            middle.outbox,
            middle.attach(order.last(), target_id).outbox,
            None,
            None,
        );
    }
}

proof fn lemma_discovery_turned(
    before: State,
    connection_id: u64,
    id: i64,
    discover: bool,
    after: State,
)
    requires
        browser::discovery_turned(before, connection_id, id, discover, after),
    ensures
        replied(before.outbox, after.outbox, Some((connection_id, id))),
{
    let set = browser::discovery_set(before, connection_id, discover);
    let order = choose|order: Seq<u64>| #[trigger]
        fxmap::lists(order, before.targets.dom()) && after == (State {
            outbox: set.outbox + browser::target_events(set, connection_id, order, discover),
            ..set
        }).answer(connection_id, id, model::nothing());
    let told = State {
        outbox: set.outbox + browser::target_events(set, connection_id, order, discover),
        ..set
    };
    lemma_names();
    assert(replied(before.outbox, told.outbox, None));
    lemma_replies(told, connection_id, id);
    lemma_compose(
        before.outbox,
        told.outbox,
        after.outbox,
        None,
        Some((connection_id, id)),
    );
}

proof fn lemma_auto_attach_turned(
    before: State,
    connection_id: u64,
    id: i64,
    auto_attach: bool,
    after: State,
)
    requires
        browser::auto_attach_turned(before, connection_id, id, auto_attach, after),
    ensures
        replied(before.outbox, after.outbox, Some((connection_id, id))),
{
    let set = browser::auto_attach_set(before, connection_id, auto_attach);
    lemma_replies(set, connection_id, id);
    if auto_attach {
        let order = choose|order: Seq<u64>| #[trigger]
            fxmap::lists(order, before.targets.dom()) && after == browser::attach_targets(
                set,
                connection_id,
                order,
            ).answer(connection_id, id, model::nothing());
        let middle = browser::attach_targets(set, connection_id, order);
        lemma_attach_targets(set, connection_id, order);
        lemma_replies(middle, connection_id, id);
        lemma_compose(
            before.outbox,
            middle.outbox,
            after.outbox,
            None,
            Some((connection_id, id)),
        );
    }
}

proof fn lemma_browser_command(
    before: State,
    connection_id: u64,
    id: i64,
    method: Seq<char>,
    params: Json,
    user_agent: Seq<char>,
    after: State,
    asked: Option<Asked>,
)
    requires
        browser::command_step(
            before,
            connection_id,
            id,
            method,
            params,
            user_agent,
            after,
            asked,
        ),
    ensures
        is_settled(before, Some((connection_id, id)), after, asked),
{
    lemma_replies(before, connection_id, id);
    match browser::browser_command(method) {
        BrowserCommand::SetDiscoverTargets => {
            lemma_discovery_turned(
                before,
                connection_id,
                id,
                json::flag_member(params, "discover"@),
                after,
            );
        },
        BrowserCommand::SetAutoAttach => {
            lemma_auto_attach_turned(
                before,
                connection_id,
                id,
                json::flag_member(params, "autoAttach"@),
                after,
            );
        },
        BrowserCommand::AttachToTarget => {
            if json::flag_member(params, "flatten"@) {
                if let Some(target_id) = browser::named_target(before, params) {
                    let middle = before.attach(connection_id, target_id);
                    lemma_attach(before, connection_id, target_id);
                    lemma_replies(middle, connection_id, id);
                    lemma_compose(
                        before.outbox,
                        middle.outbox,
                        after.outbox,
                        None,
                        Some((connection_id, id)),
                    );
                }
            }
        },
        BrowserCommand::DetachFromTarget => {
            lemma_replies(browser::detached(before, params), connection_id, id);
        },
        _ => {},
    }
}

proof fn lemma_page_state(state: State, ticket: TicketView, target_id: u64)
    ensures
        replied(
            state.outbox,
            session::page_state_told(state, ticket, target_id).outbox,
            None,
        ),
{
    if state.targets.contains_key(target_id) {
        let target = state.targets[target_id];
        let navigated = events::navigated_event(
            target.target_id_string,
            target.url,
            "about:blank"@,
        );
        let started = events::frame_event("Page.frameStartedLoading"@, target.target_id_string);
        lemma_names();
        lemma_with_session(navigated, ticket.session_id);
        lemma_with_session(started, ticket.session_id);
    }
}

proof fn lemma_enabled(
    before: State,
    ticket: TicketView,
    target_id: u64,
    domain: Domain,
    after: State,
)
    requires
        session::enable_step(before, ticket, target_id, domain, after),
    ensures
        replied(before.outbox, after.outbox, owed(ticket.connection_id, ticket.id)),
{
    let command = owed(ticket.connection_id, ticket.id);
    let changed = State {
        sessions: before.sessions.insert(
            ticket.session_id,
            session::turned(before.sessions[ticket.session_id], domain, true),
        ),
        ..before
    };
    lemma_session_replies(changed, ticket);
    let on = session::domain_turned(before, ticket, domain, true);
    assert(replied(before.outbox, on.outbox, command));
    match domain {
        Domain::Page => {
            lemma_page_state(on, ticket, target_id);
            lemma_compose(before.outbox, on.outbox, after.outbox, command, None);
        },
        Domain::Runtime => {
            let order = choose|order: Seq<u64>| #[trigger]
                fxmap::lists(order, session::pipelines_of(on.pipelines, target_id)) && after == (
                State { outbox: on.outbox + session::context_events(on, ticket, order), ..on });
            assert forall|i: int| on.outbox.len() <= i < after.outbox.len() implies !has_id(
                (#[trigger] after.outbox[i]).1,
            ) by {
                let pipeline = on.pipelines[order[i - on.outbox.len()]];
                let created = events::created_event(
                    pipeline.execution_context_id,
                    pipeline.origin,
                    Seq::empty(),
                    pipeline.label,
                    None,
                );
                lemma_names();
                lemma_with_session(created, ticket.session_id);
            }
            lemma_compose(before.outbox, on.outbox, after.outbox, command, None);
        },
        _ => {},
    }
}

proof fn lemma_children_given(
    state: State,
    ticket: TicketView,
    node_id: i64,
    children: Seq<Json>,
)
    ensures
        replied(
            state.outbox,
            session::children_given(state, ticket, node_id, children).outbox,
            owed(ticket.connection_id, ticket.id),
        ),
{
    let event = session::children_event(node_id, children);
    let told = state.send(
        ticket.connection_id,
        model::with_session(event, ticket.session_id),
    );
    lemma_names();
    lemma_with_session(event, ticket.session_id);
    assert(replied(state.outbox, told.outbox, None));
    lemma_session_replies(told, ticket);
    lemma_compose(
        state.outbox,
        told.outbox,
        session::children_given(state, ticket, node_id, children).outbox,
        None,
        owed(ticket.connection_id, ticket.id),
    );
}

proof fn lemma_session_command(
    before: State,
    ticket: TicketView,
    method: Seq<char>,
    params: Json,
    now: Json,
    after: State,
    asked: Option<Asked>,
)
    requires
        session::command_step(before, ticket, method, params, now, after, asked),
    ensures
        is_settled(before, owed(ticket.connection_id, ticket.id), after, asked),
{
    lemma_session_replies(before, ticket);
    match session::session_command(method) {
        SessionCommand::Enable(domain) => {
            let target_id = before.sessions[ticket.session_id].target_id;
            lemma_enabled(before, ticket, target_id, domain, after);
        },
        SessionCommand::Disable(domain) => {
            let changed = State {
                sessions: before.sessions.insert(
                    ticket.session_id,
                    session::turned(before.sessions[ticket.session_id], domain, false),
                ),
                ..before
            };
            lemma_session_replies(changed, ticket);
        },
        SessionCommand::RequestChildNodes => {
            if let Some(node_id) = json::int_member(params, "nodeId"@) {
                lemma_children_given(before, ticket, node_id, Seq::empty());
            }
        },
        _ => {},
    }
}

/// A command with an id gets exactly one reply, at once or when the browser has
/// done its part; one without an id gets none. No other message that it leads
/// to has an id.
pub proof fn law_command_is_answered_once(
    before: State,
    connection_id: u64,
    message: Json,
    user_agent: Seq<char>,
    now: Json,
    after: State,
    asked: Option<Asked>,
)
    requires
        dispatch::message_step(before, connection_id, message, user_agent, now, after, asked),
    ensures
        is_settled(before, owed(connection_id, json::int_member(message, "id"@)), after, asked),
{
    let id = json::int_member(message, "id"@);
    let method = dispatch::method_of(message);
    let params = dispatch::params_of(message);
    if let Some(id) = id {
        lemma_replies(before, connection_id, id);
    }
    if !dispatch::is_carrier(message) {
        let is_browser = match json::text_member(message, "sessionId"@) {
            Some(session_id) => session::is_own_session(
                before,
                TicketView { connection_id, id, session_id },
            ) && text::begins_with(method, "Target."@),
            None => true,
        };
        if is_browser {
            if let Some(id) = id {
                lemma_browser_command(
                    before,
                    connection_id,
                    id,
                    method,
                    params,
                    user_agent,
                    after,
                    asked,
                );
            }
        } else {
            let session_id = json::text_member(message, "sessionId"@)->Some_0;
            let ticket = TicketView { connection_id, id, session_id };
            if session::is_own_session(before, ticket) {
                lemma_session_command(before, ticket, method, params, now, after, asked);
            }
        }
    }
}

/// When the browser has tried to create a target, the command gets its one
/// reply, unless the target was created: then the reply is held back.
pub proof fn law_creation_is_answered_once(
    before: State,
    connection_id: u64,
    id: i64,
    outcome: CreateOutcome,
)
    ensures
        replied(
            before.outbox,
            outcomes::create_finished(before, connection_id, id, outcome).outbox,
            if outcome is Created {
                None
            } else {
                Some((connection_id, id))
            },
        ),
{
    lemma_replies(before, connection_id, id);
}

/// When the browser has tried to close a target, the command gets its one
/// reply.
pub proof fn law_closing_is_answered_once(
    before: State,
    connection_id: u64,
    id: i64,
    target_id: Seq<char>,
    closed: bool,
)
    ensures
        replied(
            before.outbox,
            outcomes::close_finished(before, connection_id, id, target_id, closed).outbox,
            Some((connection_id, id)),
        ),
{
    lemma_replies(before, connection_id, id);
    lemma_replies(
        before.without_sessions(outcomes::sessions_on(before, target_id)),
        connection_id,
        id,
    );
}

/// When a script thread was told something, or is gone, the command gets the
/// one reply that it is owed.
pub proof fn law_script_command_is_answered_once(before: State, ticket: TicketView, sent: bool)
    ensures
        replied(
            before.outbox,
            outcomes::script_finished(before, ticket, sent).outbox,
            owed(ticket.connection_id, ticket.id),
        ),
{
    lemma_session_replies(before, ticket);
}

/// When a navigation was started, or could not be, the command gets the one
/// reply that it is owed.
pub proof fn law_navigation_is_answered_once(
    before: State,
    ticket: TicketView,
    frame_id: Seq<char>,
    outcome: outcomes::NavigateOutcome,
)
    ensures
        replied(
            before.outbox,
            before.session_answer(ticket, outcomes::navigate_reply(frame_id, outcome)).outbox,
            owed(ticket.connection_id, ticket.id),
        ),
{
    lemma_session_replies(before, ticket);
}

/// When an evaluation is over, the command gets the one reply that it is owed.
pub proof fn law_evaluation_is_answered_once(
    before: State,
    ticket: TicketView,
    outcome: outcomes::EvaluateOutcome,
)
    ensures
        replied(
            before.outbox,
            outcomes::evaluate_finished(before, ticket, outcome).outbox,
            owed(ticket.connection_id, ticket.id),
        ),
{
    lemma_session_replies(before, ticket);
}

proof fn lemma_tree_quiet(state: State, pipeline_id: u64, tree: NodeTree, depth: i32)
    ensures
        dom::tree_shown(state, pipeline_id, tree, depth).0.outbox == state.outbox,
    decreases tree,
{
    if dom::shows_children(tree.info, depth) {
        lemma_trees_quiet(
            dom::node_entered(state, pipeline_id, tree.info),
            pipeline_id,
            tree.children@,
            depth,
        );
    }
}

proof fn lemma_trees_quiet(state: State, pipeline_id: u64, trees: Seq<NodeTree>, depth: i32)
    ensures
        dom::trees_shown(state, pipeline_id, trees, depth).0.outbox == state.outbox,
    decreases trees,
{
    if trees.len() > 0 {
        let middle = dom::trees_shown(state, pipeline_id, trees.drop_last(), depth).0;
        lemma_trees_quiet(state, pipeline_id, trees.drop_last(), depth);
        lemma_tree_quiet(middle, pipeline_id, trees.last(), dom::below(depth));
    }
}

/// When a document was read, or could not be, the command gets the one reply
/// that it is owed.
pub proof fn law_document_is_answered_once(
    before: State,
    ticket: TicketView,
    pipeline_id: u64,
    depth: i32,
    outcome: outcomes::DocumentOutcome,
)
    ensures
        replied(
            before.outbox,
            outcomes::document_finished(before, ticket, pipeline_id, depth, outcome).outbox,
            owed(ticket.connection_id, ticket.id),
        ),
{
    lemma_session_replies(before, ticket);
    if let outcomes::DocumentOutcome::Read(tree) = outcome {
        lemma_tree_quiet(before, pipeline_id, tree, depth);
        lemma_session_replies(dom::tree_shown(before, pipeline_id, tree, depth).0, ticket);
    }
}

/// When the children of a node were read, or could not be, the command gets the
/// one reply that it is owed.
pub proof fn law_children_are_answered_once(
    before: State,
    ticket: TicketView,
    node_id: i64,
    pipeline_id: u64,
    depth: i32,
    outcome: outcomes::ChildrenOutcome,
)
    ensures
        replied(
            before.outbox,
            outcomes::children_finished(
                before,
                ticket,
                node_id,
                pipeline_id,
                depth,
                outcome,
            ).outbox,
            owed(ticket.connection_id, ticket.id),
        ),
{
    lemma_session_replies(before, ticket);
    let children = outcomes::shown_children(outcome);
    let (shown, nodes) = dom::trees_shown(before, pipeline_id, children, depth);
    lemma_trees_quiet(before, pipeline_id, children, depth);
    lemma_children_given(shown, ticket, node_id, nodes);
}

/// When a layout was computed, or could not be, the command gets the one reply
/// that it is owed.
pub proof fn law_layout_is_answered_once(
    before: State,
    ticket: TicketView,
    outcome: outcomes::LayoutOutcome,
)
    ensures
        replied(
            before.outbox,
            outcomes::layout_finished(before, ticket, outcome).outbox,
            owed(ticket.connection_id, ticket.id),
        ),
{
    lemma_session_replies(before, ticket);
}

/// When a screenshot was taken, or could not be, the command gets the one reply
/// that it is owed.
pub proof fn law_screenshot_is_answered_once(
    before: State,
    ticket: TicketView,
    outcome: outcomes::ScreenshotOutcome,
)
    ensures
        replied(
            before.outbox,
            outcomes::screenshot_finished(before, ticket, outcome).outbox,
            owed(ticket.connection_id, ticket.id),
        ),
{
    lemma_session_replies(before, ticket);
}

/// The reply that was held back and is released by a new global: that for the
/// target which now has its browsing context.
pub open spec fn released(state: State, global: NewGlobal) -> Option<(u64, i64)> {
    let webview_id = global.webview_id;
    if !global.is_worker && !state.targets.contains_key(global.browsing_context_id)
        && state.pending_targets.contains_key(webview_id)
        && state.pending_create_replies.contains_key(webview_id) {
        let pending = state.pending_create_replies[webview_id];
        Some((pending.connection_id, pending.id))
    } else {
        None
    }
}

proof fn lemma_discovered(before: State, message: Json, after: State)
    requires
        events::discovered(before, message, after),
        !has_id(message),
    ensures
        replied(before.outbox, after.outbox, None),
{
}

proof fn lemma_new_global(before: State, global: NewGlobal, after: State)
    requires
        events::new_global_step(before, global, after),
    ensures
        replied(before.outbox, after.outbox, released(before, global)),
{
    if !global.is_worker {
        let command = released(before, global);
        let target_id = global.browsing_context_id;
        let entered = events::global_entered(before, global);
        let previous = events::previous_pipeline(before, target_id);
        let context = before.next_execution_context_id;
        let (told, destroyed, created) = choose|told: State, destroyed: State, created: State|
            #[trigger]
            events::global_told(
                entered,
                previous,
                global,
                context,
                told,
                destroyed,
                created,
                after,
            );
        lemma_names();
        if let Some((connection_id, id)) = command {
            let name = before.pending_targets[global.webview_id];
            let reply = (
                connection_id,
                model::reply_json(id, Json::Object(map!["targetId"@ => Json::Text(name)])),
            );
            lemma_push_reply(before.outbox, reply, connection_id, id);
        }
        assert(replied(before.outbox, entered.outbox, command));
        if previous is None {
            lemma_discovered(
                entered,
                model::target_event("Target.targetCreated"@, entered.target_info(target_id)),
                told,
            );
        }
        lemma_compose(before.outbox, entered.outbox, told.outbox, command, None);
        lemma_replaced(told, previous, global.pipeline_id, destroyed);
        lemma_compose(before.outbox, told.outbox, destroyed.outbox, command, None);
        lemma_announced(
            destroyed,
            target_id,
            Audience::Runtime,
            events::created_event(
                context,
                global.page.origin@,
                global.page.title@,
                global.label@,
                Some(destroyed.targets[target_id].target_id_string),
            ),
            created,
        );
        lemma_compose(before.outbox, destroyed.outbox, created.outbox, command, None);
        if previous is None {
            let order = choose|order: Seq<u64>| #[trigger]
                fxmap::lists(
                    order,
                    events::subscribers(created.connections, Subscription::AutoAttach),
                ) && after == events::attach_each(created, order, target_id);
            lemma_attach_each(created, order, target_id);
        }
        lemma_compose(before.outbox, created.outbox, after.outbox, command, None);
    }
}

proof fn lemma_replaced(before: State, previous: Option<u64>, pipeline_id: u64, after: State)
    requires
        events::replaced(before, previous, pipeline_id, after),
    ensures
        replied(before.outbox, after.outbox, None),
{
    if let Some(gone) = previous {
        if gone != pipeline_id && before.pipelines.contains_key(gone) {
            let pipeline = before.pipelines[gone];
            let event = events::destroyed_event(pipeline.execution_context_id);
            lemma_names();
            lemma_announced(
                State { pipelines: before.pipelines.remove(gone), ..before },
                pipeline.browsing_context_id,
                Audience::Runtime,
                event,
                after,
            );
        }
    }
}

proof fn lemma_script(before: State, msg: ScriptMsg, after: State)
    requires
        control::script_step(before, msg, after),
        !(msg is NewGlobal),
    ensures
        replied(before.outbox, after.outbox, None),
{
    lemma_names();
    match msg {
        ScriptMsg::NavigationStart { browsing_context_id, url, origin } => {
            if before.targets.contains_key(browsing_context_id) {
                let entered = State {
                    targets: before.targets.insert(
                        browsing_context_id,
                        events::loading_started(
                            before.targets[browsing_context_id],
                            url@,
                            origin@,
                        ),
                    ),
                    ..before
                };
                let started = choose|started: State| #[trigger]
                    events::start_told(entered, browsing_context_id, started, after);
                lemma_announced(
                    entered,
                    browsing_context_id,
                    Audience::Page,
                    events::frame_event(
                        "Page.frameStartedLoading"@,
                        entered.frame_id(browsing_context_id),
                    ),
                    started,
                );
                lemma_announced(
                    started,
                    browsing_context_id,
                    Audience::Page,
                    model::target_event(
                        "Target.targetInfoChanged"@,
                        entered.target_info(browsing_context_id),
                    ),
                    after,
                );
                lemma_compose(before.outbox, started.outbox, after.outbox, None, None);
            }
        },
        ScriptMsg::NavigationStop(stop) => {
            let target_id = stop.browsing_context_id;
            if before.targets.contains_key(target_id) {
                let entered = events::stop_entered(before, stop);
                let (navigated, stopped) = choose|navigated: State, stopped: State| #[trigger]
                    events::stop_told(entered, stop, navigated, stopped, after);
                let frame_id = entered.frame_id(target_id);
                lemma_announced(
                    entered,
                    target_id,
                    Audience::Page,
                    events::navigated_event(frame_id, stop.page.url@, stop.page.origin@),
                    navigated,
                );
                lemma_announced(
                    navigated,
                    target_id,
                    Audience::Page,
                    events::frame_event("Page.frameStoppedLoading"@, frame_id),
                    stopped,
                );
                lemma_announced(
                    stopped,
                    target_id,
                    Audience::Page,
                    events::load_event(json::json_of(stop.time)),
                    after,
                );
                lemma_compose(before.outbox, navigated.outbox, stopped.outbox, None, None);
                lemma_compose(before.outbox, stopped.outbox, after.outbox, None, None);
            }
        },
        ScriptMsg::ConsoleApi { pipeline_id, message, is_worker } => {
            if !is_worker && before.pipelines.contains_key(pipeline_id) {
                let pipeline = before.pipelines[pipeline_id];
                let called = choose|called: State| #[trigger]
                    events::console_told(before, pipeline, message, called, after);
                lemma_announced(
                    before,
                    pipeline.browsing_context_id,
                    Audience::Runtime,
                    events::console_event(message, pipeline.execution_context_id),
                    called,
                );
                lemma_announced(
                    called,
                    pipeline.browsing_context_id,
                    Audience::Log,
                    events::console_entry(message),
                    after,
                );
                lemma_compose(before.outbox, called.outbox, after.outbox, None, None);
            }
        },
        ScriptMsg::ClearConsole { pipeline_id, is_worker } => {
            if !is_worker && before.pipelines.contains_key(pipeline_id) {
                lemma_announced(
                    before,
                    before.pipelines[pipeline_id].browsing_context_id,
                    Audience::Runtime,
                    protocol::event_json("Runtime.consoleCleared"@, model::nothing()),
                    after,
                );
            }
        },
        ScriptMsg::TitleChanged { pipeline_id, title } => {
            let target_id = before.pipelines[pipeline_id].browsing_context_id;
            if before.pipelines.contains_key(pipeline_id) && before.targets.contains_key(target_id) {
                let changed = events::titled(before, target_id, title@);
                lemma_announced(
                    changed,
                    target_id,
                    Audience::RuntimeOrPage,
                    model::target_event(
                        "Target.targetInfoChanged"@,
                        changed.target_info(target_id),
                    ),
                    after,
                );
            }
        },
        ScriptMsg::ReportPageError { pipeline_id, error } => {
            if before.pipelines.contains_key(pipeline_id) {
                let entry = Json::Object(
                    events::entry_members(
                        "javascript"@,
                        "error"@,
                        error.error_message@,
                        error.time_stamp,
                        error.source_name@,
                        error.line_number,
                    ),
                );
                lemma_announced(
                    before,
                    before.pipelines[pipeline_id].browsing_context_id,
                    Audience::Log,
                    protocol::event_json("Log.entryAdded"@, entry),
                    after,
                );
            }
        },
        _ => {},
    }
}

proof fn lemma_network(
    before: State,
    request_id: Seq<char>,
    event: NetworkEvent,
    now: Json,
    after: State,
)
    requires
        network::network_step(before, request_id, event, now, after),
    ensures
        replied(before.outbox, after.outbox, None),
{
    lemma_names();
    match event {
        NetworkEvent::HttpRequest(request) => {
            let target_id = request.browsing_context_id;
            if before.targets.contains_key(target_id) {
                lemma_announced(
                    State {
                        network_requests: before.network_requests.insert(
                            request_id,
                            network::in_flight(target_id, request.url@),
                        ),
                        ..before
                    },
                    target_id,
                    Audience::Network,
                    network::request_event(request_id, request, now),
                    after,
                );
            }
        },
        NetworkEvent::HttpResponse(response) => {
            if before.network_requests.contains_key(request_id)
                && before.network_requests[request_id].finished is None {
                let (remembered, received) = choose|remembered: State, received: State| #[trigger]
                    network::response_told(
                        before,
                        request_id,
                        response,
                        now,
                        remembered,
                        received,
                        after,
                    );
                let request = before.network_requests[request_id];
                let target_id = request.browsing_context_id;
                assert(remembered.outbox == before.outbox);
                lemma_announced(
                    remembered,
                    target_id,
                    Audience::Network,
                    network::response_event(
                        request_id,
                        request.url,
                        before.frame_id(target_id),
                        response,
                        now,
                    ),
                    received,
                );
                lemma_announced(
                    received,
                    target_id,
                    Audience::Network,
                    network::loading_event(request_id, response, now),
                    after,
                );
                lemma_compose(before.outbox, received.outbox, after.outbox, None, None);
            }
        },
        _ => {},
    }
}

/// A browser event answers nobody, but for a new global that releases the one
/// reply which was held back for its target.
pub proof fn law_browser_event_answers_nobody_else(
    before: State,
    msg: ControlMsg,
    now: Json,
    after: State,
)
    requires
        control::control_step(before, msg, now, after),
    ensures
        replied(
            before.outbox,
            after.outbox,
            match msg {
                ControlMsg::FromScript(ScriptMsg::NewGlobal(global)) => released(before, global),
                _ => None,
            },
        ),
{
    match msg {
        ControlMsg::FromScript(msg) => {
            if let ScriptMsg::NewGlobal(global) = msg {
                lemma_new_global(before, global, after);
            } else {
                lemma_script(before, msg, after);
            }
        },
        ControlMsg::FromChrome(ChromeMsg::NetworkEvent { request_id, event }) => {
            lemma_network(before, request_id@, event, now, after);
        },
        _ => {},
    }
}

} // verus!
