//! What the commands of a session do: what they change, what they are answered,
//! and what they ask of the browser.
use vstd::prelude::*;

use crate::browser;
use crate::encoding;
use crate::events;
use crate::fxmap;
use crate::json;
use crate::json::Json;
use crate::methods;
use crate::model;
use crate::model::CdpSession;
use crate::model::State;
use crate::model::Target;
use crate::model::TicketView;
use crate::names;
use crate::observe;
use crate::outcome_laws;
use crate::page_laws;
use crate::protocol;
use crate::requests::Asked;
use crate::session;
use crate::text;
use crate::text_laws;

verus! {

/// A command of a session on its own connection led from one state to another,
/// and to what is asked of the browser.
pub open spec fn led(
    before: State,
    ticket: TicketView,
    method: Seq<char>,
    params: Json,
    after: State,
    asked: Option<Asked>,
) -> bool {
    &&& before.sessions.contains_key(ticket.session_id)
    &&& before.sessions[ticket.session_id].connection_id == ticket.connection_id
    &&& exists|user_agent: Seq<char>, now: Json| #[trigger]
        session::session_step(
            before,
            ticket,
            method,
            params,
            user_agent,
            now,
            after,
            asked,
        )
}

/// The only thing that happens is that the command is answered with that result.
pub open spec fn only_reply(
    before: State,
    after: State,
    ticket: TicketView,
    result: Json,
    connection_id: u64,
    session: Option<Seq<char>>,
) -> bool {
    let new = observe::news(before, after, connection_id, session);
    &&& after == (State { outbox: after.outbox, ..before })
    &&& observe::extends(before, after)
    &&& if outcome_laws::is_for(ticket, connection_id, session) {
        new.len() == 1 && outcome_laws::replies(new[0], ticket, result)
    } else {
        new.len() == 0
    }
}

/// The only thing that happens is that the command is refused, for that reason.
pub open spec fn only_refusal(
    before: State,
    after: State,
    ticket: TicketView,
    code: int,
    reason: Seq<char>,
    connection_id: u64,
    session: Option<Seq<char>>,
) -> bool {
    let new = observe::news(before, after, connection_id, session);
    &&& after == (State { outbox: after.outbox, ..before })
    &&& observe::extends(before, after)
    &&& if outcome_laws::is_for(ticket, connection_id, session) {
        new.len() == 1 && observe::is_refusal(new[0], ticket.id->Some_0, code, reason)
    } else {
        new.len() == 0
    }
}

/// The object without members.
pub open spec fn empty() -> Json {
    Json::Object(Map::empty())
}

/// The target of a session.
pub open spec fn target_of(state: State, ticket: TicketView) -> u64 {
    state.sessions[ticket.session_id].target_id
}

proof fn lemma_answered(
    before: State,
    ticket: TicketView,
    result: Json,
    connection_id: u64,
    session: Option<Seq<char>>,
)
    ensures
        only_reply(
            before,
            before.session_answer(ticket, result),
            ticket,
            result,
            connection_id,
            session,
        ),
{
    observe::lemma_session_answer(before, ticket, result, connection_id, session);
}

proof fn lemma_refused(
    before: State,
    ticket: TicketView,
    code: i64,
    reason: Seq<char>,
    connection_id: u64,
    session: Option<Seq<char>>,
)
    ensures
        only_refusal(
            before,
            before.session_refuse(ticket, code, reason),
            ticket,
            code as int,
            reason,
            connection_id,
            session,
        ),
{
    observe::lemma_session_refuse(before, ticket, code, reason, connection_id, session);
}

proof fn lemma_led(
    before: State,
    ticket: TicketView,
    method: Seq<char>,
    params: Json,
    after: State,
    asked: Option<Asked>,
) -> (now: Json)
    requires
        led(before, ticket, method, params, after, asked),
        methods::is_busy(method) || methods::is_idle(method) || methods::is_refused(method),
    ensures
        session::command_step(before, ticket, method, params, now, after, asked),
{
    methods::lemma_session_methods(method);
    let (user_agent, now) = choose|user_agent: Seq<char>, now: Json| #[trigger]
        session::session_step(before, ticket, method, params, user_agent, now, after, asked);
    now
}

/// A method that is accepted without having any effect is answered with an empty
/// object, and changes nothing.
pub proof fn law_idle_methods_change_nothing(
    before: State,
    ticket: TicketView,
    method: Seq<char>,
    params: Json,
    after: State,
    asked: Option<Asked>,
    connection_id: u64,
    session: Option<Seq<char>>,
)
    requires
        led(before, ticket, method, params, after, asked),
        methods::is_idle(method),
    ensures
        asked is None,
        only_reply(before, after, ticket, empty(), connection_id, session),
{
    let now = lemma_led(before, ticket, method, params, after, asked);
    methods::lemma_session_methods(method);
    lemma_answered(before, ticket, empty(), connection_id, session);
}

/// A method that is known but not supported is refused by name.
pub proof fn law_unsupported_methods_are_refused(
    before: State,
    ticket: TicketView,
    method: Seq<char>,
    params: Json,
    after: State,
    asked: Option<Asked>,
    connection_id: u64,
    session: Option<Seq<char>>,
)
    requires
        led(before, ticket, method, params, after, asked),
        methods::is_refused(method),
    ensures
        asked is None,
        only_refusal(
            before,
            after,
            ticket,
            -32000,
            method + " is not supported by Servo"@,
            connection_id,
            session,
        ),
{
    let now = lemma_led(before, ticket, method, params, after, asked);
    methods::lemma_session_methods(method);
    lemma_refused(
        before,
        ticket,
        protocol::ERROR_SERVER_ERROR,
        method + " is not supported by Servo"@,
        connection_id,
        session,
    );
}

/// A method of no domain is refused by name.
pub proof fn law_unknown_session_methods_are_refused(
    before: State,
    ticket: TicketView,
    method: Seq<char>,
    params: Json,
    after: State,
    asked: Option<Asked>,
    connection_id: u64,
    session: Option<Seq<char>>,
)
    requires
        led(before, ticket, method, params, after, asked),
        !methods::is_busy(method),
        !methods::is_idle(method),
        !methods::is_refused(method),
        !text::begins_with(method, "Target."@),
    ensures
        asked is None,
        only_refusal(
            before,
            after,
            ticket,
            -32601,
            "'"@ + method + "' wasn't found"@,
            connection_id,
            session,
        ),
{
    methods::lemma_session_methods(method);
    lemma_refused(
        before,
        ticket,
        protocol::ERROR_METHOD_NOT_FOUND,
        "'"@ + method + "' wasn't found"@,
        connection_id,
        session,
    );
}

/// A session that is not there, or belongs to another connection, is not found:
/// the command is refused outside any session, and nothing else happens.
pub proof fn law_foreign_session_is_not_found(
    before: State,
    ticket: TicketView,
    method: Seq<char>,
    params: Json,
    user_agent: Seq<char>,
    now: Json,
    after: State,
    asked: Option<Asked>,
    connection_id: u64,
    session: Option<Seq<char>>,
)
    requires
        session::session_step(before, ticket, method, params, user_agent, now, after, asked),
        !before.sessions.contains_key(ticket.session_id)
            || before.sessions[ticket.session_id].connection_id != ticket.connection_id,
    ensures
        asked is None,
        after == (State { outbox: after.outbox, ..before }),
        ({
            let new = observe::news(before, after, connection_id, session);
            if ticket.id is Some && connection_id == ticket.connection_id && session is None {
                new.len() == 1 && observe::is_refusal(
                    new[0],
                    ticket.id->Some_0,
                    -32000,
                    "Session not found"@,
                )
            } else {
                new.len() == 0
            }
        }),
{
    if let Some(id) = ticket.id {
        observe::lemma_refuse(
            before,
            ticket.connection_id,
            id,
            protocol::ERROR_SERVER_ERROR,
            "Session not found"@,
            connection_id,
            session,
        );
    } else {
        observe::lemma_quiet(before, after, connection_id, session);
    }
}

/// A command of the `Target` domain in a session is a command to the browser, from
/// the connection of the session.
pub proof fn law_target_commands_go_to_the_browser(
    before: State,
    ticket: TicketView,
    method: Seq<char>,
    params: Json,
    user_agent: Seq<char>,
    now: Json,
    after: State,
    asked: Option<Asked>,
)
    requires
        session::session_step(before, ticket, method, params, user_agent, now, after, asked),
        before.sessions.contains_key(ticket.session_id),
        before.sessions[ticket.session_id].connection_id == ticket.connection_id,
        text_laws::stands_at(method, "Target."@, 0),
    ensures
        browser::browser_step(
            before,
            ticket.connection_id,
            ticket.id,
            method,
            params,
            user_agent,
            after,
            asked,
        ),
{
    text_laws::law_prefixes_and_patterns(method, "Target."@);
}

/// A session has one of its flags changed.
pub open spec fn flagged(old_one: CdpSession, method: Seq<char>, new_one: CdpSession) -> bool {
    if method == "Page.enable"@ || method == "Page.disable"@ {
        new_one == (CdpSession { page_enabled: method == "Page.enable"@, ..old_one })
    } else if method == "Runtime.enable"@ || method == "Runtime.disable"@ {
        new_one == (CdpSession { runtime_enabled: method == "Runtime.enable"@, ..old_one })
    } else if method == "Network.enable"@ || method == "Network.disable"@ {
        new_one == (CdpSession { network_enabled: method == "Network.enable"@, ..old_one })
    } else if method == "DOM.enable"@ || method == "DOM.disable"@ {
        new_one == (CdpSession { dom_enabled: method == "DOM.enable"@, ..old_one })
    } else if method == "Log.enable"@ {
        new_one == (CdpSession { log_enabled: true, ..old_one })
    } else {
        new_one == (CdpSession { console_enabled: true, ..old_one })
    }
}

/// The method turns a domain on or off.
pub open spec fn is_switch(method: Seq<char>) -> bool {
    ||| method == "Page.enable"@
    ||| method == "Page.disable"@
    ||| method == "Runtime.enable"@
    ||| method == "Runtime.disable"@
    ||| method == "Network.enable"@
    ||| method == "Network.disable"@
    ||| method == "DOM.enable"@
    ||| method == "DOM.disable"@
    ||| method == "Log.enable"@
    ||| method == "Console.enable"@
}

/// Turning a domain on or off sets the flag of that domain in the session, and
/// changes no other flag and no other session.
pub proof fn law_domains_are_switched(
    before: State,
    ticket: TicketView,
    method: Seq<char>,
    params: Json,
    after: State,
    asked: Option<Asked>,
)
    requires
        led(before, ticket, method, params, after, asked),
        is_switch(method),
    ensures
        asked is None,
        flagged(
            before.sessions[ticket.session_id],
            method,
            after.sessions[ticket.session_id],
        ),
        after == (State {
            sessions: before.sessions.insert(
                ticket.session_id,
                after.sessions[ticket.session_id],
            ),
            outbox: after.outbox,
            ..before
        }),
{
    let now = lemma_led(before, ticket, method, params, after, asked);
    methods::lemma_session_methods(method);
    reveal_strlit("Page.enable");
    reveal_strlit("Page.disable");
    reveal_strlit("Runtime.enable");
    reveal_strlit("Runtime.disable");
    reveal_strlit("Network.enable");
    reveal_strlit("Network.disable");
    reveal_strlit("DOM.enable");
    reveal_strlit("DOM.disable");
    assert("Page.enable"@.len() == 11 && "Page.disable"@.len() == 12);
    assert("Runtime.enable"@.len() == 14 && "Runtime.disable"@.len() == 15);
    assert("Network.enable"@.len() == 14 && "Network.disable"@.len() == 15);
    assert("DOM.enable"@.len() == 10 && "DOM.disable"@.len() == 11);
}

/// Turning a domain on or off is answered with an empty object, and of the
/// domains other than `Page` and `Runtime` nobody learns anything else; nor when
/// one of these two is turned off.
pub proof fn law_switch_is_answered(
    before: State,
    ticket: TicketView,
    method: Seq<char>,
    params: Json,
    after: State,
    asked: Option<Asked>,
    connection_id: u64,
    session: Option<Seq<char>>,
)
    requires
        led(before, ticket, method, params, after, asked),
        is_switch(method),
        method != "Page.enable"@,
        method != "Runtime.enable"@,
    ensures
        ({
            let new = observe::news(before, after, connection_id, session);
            if outcome_laws::is_for(ticket, connection_id, session) {
                new.len() == 1 && outcome_laws::replies(new[0], ticket, empty())
            } else {
                new.len() == 0
            }
        }),
{
    let now = lemma_led(before, ticket, method, params, after, asked);
    methods::lemma_session_methods(method);
    let turned = State { sessions: after.sessions, ..before };
    assert(after == turned.session_answer(ticket, empty()));
    observe::lemma_quiet(before, turned, connection_id, session);
    lemma_answered(turned, ticket, empty(), connection_id, session);
    observe::lemma_news_compose(before, turned, after, connection_id, session);
}

/// A session that turns the `Page` domain on is answered, and then told which
/// document its target shows, and whether it is being loaded.
pub proof fn law_page_state_is_told(
    before: State,
    ticket: TicketView,
    params: Json,
    after: State,
    asked: Option<Asked>,
    connection_id: u64,
    session: Option<Seq<char>>,
)
    requires
        led(before, ticket, "Page.enable"@, params, after, asked),
        ticket.id is Some,
    ensures
        ({
            let target_id = target_of(before, ticket);
            let target = before.targets[target_id];
            let new = observe::news(before, after, connection_id, session);
            if outcome_laws::is_for(ticket, connection_id, session) {
                &&& new.len() >= 1
                &&& outcome_laws::replies(new[0], ticket, empty())
                &&& if before.targets.contains_key(target_id) {
                    &&& new.len() == if target.loading {
                        3int
                    } else {
                        2
                    }
                    &&& page_laws::tells_document(
                        new[1],
                        target.target_id_string,
                        target.url,
                        "about:blank"@,
                    )
                    &&& target.loading ==> page_laws::tells_frame(
                        new[2],
                        "Page.frameStartedLoading"@,
                        target,
                    )
                } else {
                    new.len() == 1
                }
            } else {
                new.len() == 0
            }
        }),
{
    let now = lemma_led(before, ticket, "Page.enable"@, params, after, asked);
    methods::lemma_session_methods("Page.enable"@);
    names::lemma_reply_names();
    names::lemma_frame_names();
    let target_id = target_of(before, ticket);
    let target = before.targets[target_id];
    let c = connection_id;
    let turned = State { sessions: after.sessions, ..before };
    let answered = turned.session_answer(ticket, empty());
    assert(answered == session::domain_turned(before, ticket, session::Domain::Page, true));
    observe::lemma_quiet(before, turned, c, session);
    lemma_answered(turned, ticket, empty(), c, session);
    observe::lemma_news_compose(before, turned, answered, c, session);
    if before.targets.contains_key(target_id) {
        let shown = events::navigated_event(target.target_id_string, target.url, "about:blank"@);
        let message = model::with_session(shown, ticket.session_id);
        let told = answered.send(ticket.connection_id, message);
        observe::lemma_with_session(shown, ticket.session_id);
        observe::lemma_sent(answered, told, ticket.connection_id, message, c, session);
        observe::lemma_news_compose(before, answered, told, c, session);
        if target.loading {
            let frame = events::frame_event(
                "Page.frameStartedLoading"@,
                target.target_id_string,
            );
            let message = model::with_session(frame, ticket.session_id);
            observe::lemma_with_session(frame, ticket.session_id);
            observe::lemma_sent(told, after, ticket.connection_id, message, c, session);
            observe::lemma_news_compose(before, told, after, c, session);
        }
    }
}

/// A message introduces an execution context.
pub open spec fn introduces(
    message: Json,
    execution_context_id: i64,
    origin: Seq<char>,
    name: Seq<char>,
    label: Seq<char>,
    frame_id: Option<Seq<char>>,
) -> bool {
    let context = observe::parameter(message, "context"@);
    let aux = observe::part(context, "auxData"@);
    &&& observe::is_event(message, "Runtime.executionContextCreated"@)
    &&& observe::part(context, "id"@) == Json::Int(execution_context_id as int)
    &&& observe::part(context, "origin"@) == Json::Text(origin)
    &&& observe::part(context, "name"@) == Json::Text(name)
    &&& observe::part(context, "uniqueId"@) == Json::Text(label)
    &&& observe::part(context, "isDefault"@) == Json::Bool(true)
    &&& observe::part(aux, "isDefault"@) == Json::Bool(true)
    &&& observe::part(aux, "type"@) == Json::Text("default"@)
    &&& match frame_id {
        Some(id) => observe::part(aux, "frameId"@) == Json::Text(id),
        None => !observe::holds(aux, "frameId"@),
    }
}

pub(crate) proof fn lemma_introduces(
    execution_context_id: i64,
    origin: Seq<char>,
    name: Seq<char>,
    label: Seq<char>,
    frame_id: Option<Seq<char>>,
    session_id: Seq<char>,
)
    ensures
        ({
            let event = events::created_event(execution_context_id, origin, name, label, frame_id);
            let message = model::with_session(event, session_id);
            &&& event is Object
            &&& observe::session_in(message) == Some(session_id)
            &&& introduces(message, execution_context_id, origin, name, label, frame_id)
        }),
{
    names::lemma_reply_names();
    names::lemma_context_names();
    observe::lemma_with_session(
        events::created_event(execution_context_id, origin, name, label, frame_id),
        session_id,
    );
}

/// A message introduces the execution context of a pipeline, which has no title.
pub open spec fn introduces_pipeline(message: Json, state: State, pipeline_id: u64) -> bool {
    let pipeline = state.pipelines[pipeline_id];
    introduces(
        message,
        pipeline.execution_context_id,
        pipeline.origin,
        Seq::empty(),
        pipeline.label,
        None,
    )
}

proof fn lemma_contexts_seen(
    state: State,
    ticket: TicketView,
    order: Seq<u64>,
    connection_id: u64,
    session: Option<Seq<char>>,
)
    ensures
        ({
            let new = observe::seen(
                session::context_events(state, ticket, order),
                connection_id,
                session,
            );
            if connection_id == ticket.connection_id && session == Some(ticket.session_id) {
                &&& new.len() == order.len()
                &&& forall|i: int|
                    0 <= i < order.len() ==> introduces_pipeline(#[trigger] new[i], state, order[i])
            } else {
                new.len() == 0
            }
        }),
    decreases order.len(),
{
    let all = session::context_events(state, ticket, order);
    if order.len() > 0 {
        let front = order.drop_last();
        let pipeline = state.pipelines[order.last()];
        assert(all.drop_last() =~= session::context_events(state, ticket, front));
        lemma_contexts_seen(state, ticket, front, connection_id, session);
        lemma_introduces(
            pipeline.execution_context_id,
            pipeline.origin,
            Seq::empty(),
            pipeline.label,
            None,
            ticket.session_id,
        );
        let new = observe::seen(all, connection_id, session);
        let some = observe::seen(all.drop_last(), connection_id, session);
        if connection_id == ticket.connection_id && session == Some(ticket.session_id) {
            assert forall|i: int| 0 <= i < order.len() implies introduces_pipeline(
                #[trigger] new[i],
                state,
                order[i],
            ) by {
                if i < front.len() {
                    assert(some[i] == new[i]);
                    assert(front[i] == order[i]);
                }
            }
        }
    }
}

/// A list names the pipelines of a target, each once.
pub open spec fn lists_pipelines(order: Seq<u64>, state: State, target_id: u64) -> bool {
    &&& order.no_duplicates()
    &&& forall|id: u64| #[trigger]
        order.contains(id) <==> state.pipelines.contains_key(id)
            && state.pipelines[id].browsing_context_id == target_id
}

/// A session that turns the `Runtime` domain on is answered, and then told of
/// the execution context of each pipeline of its target, each once.
pub proof fn law_contexts_are_told(
    before: State,
    ticket: TicketView,
    params: Json,
    after: State,
    asked: Option<Asked>,
    connection_id: u64,
    session: Option<Seq<char>>,
)
    requires
        led(before, ticket, "Runtime.enable"@, params, after, asked),
        ticket.id is Some,
    ensures
        ({
            let new = observe::news(before, after, connection_id, session);
            if outcome_laws::is_for(ticket, connection_id, session) {
                &&& new.len() >= 1
                &&& outcome_laws::replies(new[0], ticket, empty())
                &&& exists|order: Seq<u64>| #[trigger]
                    lists_pipelines(order, before, target_of(before, ticket)) && new.len()
                        == order.len() + 1 && forall|i: int|
                        0 <= i < order.len() ==> introduces_pipeline(
                            new[i + 1],
                            before,
                            #[trigger] order[i],
                        )
            } else {
                new.len() == 0
            }
        }),
{
    let now = lemma_led(before, ticket, "Runtime.enable"@, params, after, asked);
    methods::lemma_session_methods("Runtime.enable"@);
    let target_id = target_of(before, ticket);
    let c = connection_id;
    let turned = State { sessions: after.sessions, ..before };
    let answered = turned.session_answer(ticket, empty());
    assert(answered == session::domain_turned(before, ticket, session::Domain::Runtime, true));
    observe::lemma_quiet(before, turned, c, session);
    lemma_answered(turned, ticket, empty(), c, session);
    observe::lemma_news_compose(before, turned, answered, c, session);
    let chosen = session::pipelines_of(answered.pipelines, target_id);
    let order = choose|order: Seq<u64>| #[trigger]
        fxmap::lists(order, chosen) && after == (State {
            outbox: answered.outbox + session::context_events(answered, ticket, order),
            ..answered
        });
    let told = session::context_events(answered, ticket, order);
    assert(after.outbox.skip(answered.outbox.len() as int) =~= told);
    assert(answered.outbox =~= after.outbox.subrange(0, answered.outbox.len() as int));
    observe::lemma_news_compose(before, answered, after, c, session);
    lemma_contexts_seen(answered, ticket, order, c, session);
    assert forall|id: u64| #[trigger] order.contains(id) <==> before.pipelines.contains_key(id)
        && before.pipelines[id].browsing_context_id == target_id by {
        assert(order.contains(id) == chosen.contains(id));
    }
    assert(lists_pipelines(order, before, target_id));
    let new = observe::news(before, after, c, session);
    let first = observe::news(before, answered, c, session);
    let rest = observe::news(answered, after, c, session);
    assert(new == first + rest);
    if outcome_laws::is_for(ticket, c, session) {
        assert(new[0] == first[0]);
        assert forall|i: int| 0 <= i < order.len() implies introduces_pipeline(
            new[i + 1],
            before,
            #[trigger] order[i],
        ) by {
            assert(new[i + 1] == rest[i]);
        }
    }
}

/// The pipeline that a target shows, and that can be told something.
pub open spec fn is_current(state: State, target_id: u64, pipeline_id: u64) -> bool {
    &&& state.targets.contains_key(target_id)
    &&& state.targets[target_id].current_pipeline == Some(pipeline_id)
    &&& state.pipelines.contains_key(pipeline_id)
    &&& state.pipelines[pipeline_id].ready
}

/// Why the target has no pipeline that can be told something.
pub open spec fn lacks_pipeline(state: State, target_id: u64, reason: Seq<char>) -> bool {
    if !state.targets.contains_key(target_id) {
        reason == "Target not found"@
    } else {
        match state.targets[target_id].current_pipeline {
            Some(pipeline_id) => {
                &&& !(state.pipelines.contains_key(pipeline_id)
                    && state.pipelines[pipeline_id].ready)
                &&& reason == "Target is not ready for evaluation"@
            },
            None => reason == "Target has no execution context"@,
        }
    }
}

/// A navigation asks the browser to tell the pipeline that the target shows, or
/// to report why there is none. It needs a URL.
pub proof fn law_navigation_is_asked(
    before: State,
    ticket: TicketView,
    params: Json,
    after: State,
    asked: Option<Asked>,
    connection_id: u64,
    session: Option<Seq<char>>,
)
    requires
        led(before, ticket, "Page.navigate"@, params, after, asked),
    ensures
        ({
            let target_id = target_of(before, ticket);
            match observe::part(params, "url"@) {
                Json::Text(wanted) => {
                    &&& after == before
                    &&& asked matches Some(Asked::Navigate { ticket: t, frame_id, url, pipeline })
                    &&& t == ticket
                    &&& url == wanted
                    &&& before.targets.contains_key(target_id) ==> frame_id
                        == before.targets[target_id].target_id_string
                    &&& !before.targets.contains_key(target_id) ==> frame_id.len() == 0
                    &&& match pipeline {
                        Ok(pipeline_id) => is_current(before, target_id, pipeline_id),
                        Err(reason) => lacks_pipeline(before, target_id, reason),
                    }
                },
                _ => {
                    &&& asked is None
                    &&& only_refusal(
                        before,
                        after,
                        ticket,
                        -32600,
                        "'url' parameter is required"@,
                        connection_id,
                        session,
                    )
                },
            }
        }),
{
    let now = lemma_led(before, ticket, "Page.navigate"@, params, after, asked);
    methods::lemma_session_methods("Page.navigate"@);
    lemma_refused(
        before,
        ticket,
        protocol::ERROR_INVALID_REQUEST,
        "'url' parameter is required"@,
        connection_id,
        session,
    );
}

/// Reloading, and going back and forward, ask the browser to tell the pipeline
/// that the target shows; without one the command is refused.
pub proof fn law_script_commands_are_asked(
    before: State,
    ticket: TicketView,
    method: Seq<char>,
    params: Json,
    after: State,
    asked: Option<Asked>,
    connection_id: u64,
    session: Option<Seq<char>>,
)
    requires
        led(before, ticket, method, params, after, asked),
        method == "Page.reload"@ || method == "Page.goBack"@ || method == "Page.goForward"@,
    ensures
        match asked {
            Some(asked) => {
                &&& after == before
                &&& asked matches Asked::Script { ticket: t, pipeline_id, action }
                &&& t == ticket
                &&& is_current(before, target_of(before, ticket), pipeline_id)
                &&& method == "Page.reload"@ <==> action is Reload
                &&& method == "Page.goBack"@ <==> action is GoBack
                &&& method == "Page.goForward"@ <==> action is GoForward
            },
            None => exists|reason: Seq<char>| #[trigger]
                lacks_pipeline(before, target_of(before, ticket), reason) && only_refusal(
                    before,
                    after,
                    ticket,
                    -32000,
                    reason,
                    connection_id,
                    session,
                ),
        },
{
    let now = lemma_led(before, ticket, method, params, after, asked);
    methods::lemma_session_methods(method);
    let target_id = target_of(before, ticket);
    assert(session::session_command("Page.reload"@) != session::session_command("Page.goBack"@));
    match session::script_pipeline(before, target_id) {
        Ok(_) => {},
        Err(reason) => {
            assert(lacks_pipeline(before, target_id, reason));
            lemma_refused(
                before,
                ticket,
                protocol::ERROR_SERVER_ERROR,
                reason,
                connection_id,
                session,
            );
        },
    }
}

/// A list has one history entry.
pub open spec fn is_history(result: Json, url: Seq<char>, title: Seq<char>) -> bool {
    let entries = observe::items(observe::part(result, "entries"@));
    &&& observe::part(result, "index"@) == Json::Int(0)
    &&& entries.len() == 1
    &&& observe::part(entries[0], "id"@) == Json::Int(1)
    &&& observe::part(entries[0], "url"@) == Json::Text(url)
    &&& observe::part(entries[0], "userTypedURL"@) == Json::Text(url)
    &&& observe::part(entries[0], "title"@) == Json::Text(title)
}

/// The history has one entry, with the URL and the title of the target.
pub proof fn law_history_shows_the_target(
    before: State,
    ticket: TicketView,
    params: Json,
    after: State,
    asked: Option<Asked>,
    connection_id: u64,
    session: Option<Seq<char>>,
)
    requires
        led(before, ticket, "Page.getNavigationHistory"@, params, after, asked),
    ensures
        asked is None,
        exists|result: Json| #[trigger]
            only_reply(before, after, ticket, result, connection_id, session) && {
                let target_id = target_of(before, ticket);
                if before.targets.contains_key(target_id) {
                    is_history(
                        result,
                        before.targets[target_id].url,
                        before.targets[target_id].title,
                    )
                } else {
                    is_history(result, Seq::empty(), Seq::empty())
                }
            },
{
    let now = lemma_led(before, ticket, "Page.getNavigationHistory"@, params, after, asked);
    methods::lemma_session_methods("Page.getNavigationHistory"@);
    names::lemma_history_names();
    let result = session::target_history(before, target_of(before, ticket));
    lemma_answered(before, ticket, result, connection_id, session);
}

/// An object shows the frame of a target, with an empty list beside it.
pub open spec fn is_frame_tree(result: Json, target: Target, list: Seq<char>) -> bool {
    let tree = observe::part(result, "frameTree"@);
    let frame = observe::part(tree, "frame"@);
    &&& observe::part(frame, "id"@) == Json::Text(target.target_id_string)
    &&& observe::part(frame, "loaderId"@) == Json::Text(""@)
    &&& observe::part(frame, "url"@) == Json::Text(target.url)
    &&& observe::part(frame, "securityOrigin"@) == Json::Text(target.origin)
    &&& observe::part(frame, "mimeType"@) == Json::Text("text/html"@)
    &&& observe::part(tree, list) == Json::Array(Seq::empty())
}

/// The frame tree, and the resource tree, show the frame of the target.
pub proof fn law_trees_show_the_frame(
    before: State,
    ticket: TicketView,
    method: Seq<char>,
    params: Json,
    after: State,
    asked: Option<Asked>,
    connection_id: u64,
    session: Option<Seq<char>>,
)
    requires
        led(before, ticket, method, params, after, asked),
        method == "Page.getFrameTree"@ || method == "Page.getResourceTree"@,
    ensures
        asked is None,
        ({
            let target_id = target_of(before, ticket);
            if before.targets.contains_key(target_id) {
                exists|result: Json| #[trigger]
                    only_reply(before, after, ticket, result, connection_id, session)
                        && is_frame_tree(
                        result,
                        before.targets[target_id],
                        if method == "Page.getFrameTree"@ {
                            "childFrames"@
                        } else {
                            "resources"@
                        },
                    )
            } else {
                only_refusal(
                    before,
                    after,
                    ticket,
                    -32000,
                    "Target not found"@,
                    connection_id,
                    session,
                )
            }
        }),
{
    let now = lemma_led(before, ticket, method, params, after, asked);
    methods::lemma_session_methods(method);
    names::lemma_frame_names();
    let target_id = target_of(before, ticket);
    assert(session::session_command("Page.getFrameTree"@) != session::session_command(
        "Page.getResourceTree"@,
    ));
    let list = if method == "Page.getFrameTree"@ {
        "childFrames"@
    } else {
        "resources"@
    };
    if before.targets.contains_key(target_id) {
        let result = session::tree_reply(before.targets[target_id], list);
        lemma_answered(before, ticket, result, connection_id, session);
        assert(is_frame_tree(result, before.targets[target_id], list));
    } else {
        lemma_refused(
            before,
            ticket,
            protocol::ERROR_SERVER_ERROR,
            "Target not found"@,
            connection_id,
            session,
        );
    }
}

/// Bringing a page to the front asks for the web view of the target, and is
/// answered with an empty object.
pub proof fn law_page_comes_to_the_front(
    before: State,
    ticket: TicketView,
    params: Json,
    after: State,
    asked: Option<Asked>,
    connection_id: u64,
    session: Option<Seq<char>>,
)
    requires
        led(before, ticket, "Page.bringToFront"@, params, after, asked),
    ensures
        ({
            let target_id = target_of(before, ticket);
            if before.targets.contains_key(target_id) {
                &&& asked == Some(
                    Asked::Focus { webview_id: before.targets[target_id].webview_id },
                )
                &&& only_reply(before, after, ticket, empty(), connection_id, session)
            } else {
                &&& asked is None
                &&& only_refusal(
                    before,
                    after,
                    ticket,
                    -32000,
                    "Target not found"@,
                    connection_id,
                    session,
                )
            }
        }),
{
    let now = lemma_led(before, ticket, "Page.bringToFront"@, params, after, asked);
    methods::lemma_session_methods("Page.bringToFront"@);
    lemma_answered(before, ticket, empty(), connection_id, session);
    lemma_refused(
        before,
        ticket,
        protocol::ERROR_SERVER_ERROR,
        "Target not found"@,
        connection_id,
        session,
    );
}

/// A JSON value is a number.
pub open spec fn is_number(value: Json) -> bool {
    value is Int || value is Float
}

/// An object has the four numbers of a rectangle.
pub open spec fn is_rectangle(clip: Json) -> bool {
    &&& is_number(observe::part(clip, "x"@))
    &&& is_number(observe::part(clip, "y"@))
    &&& is_number(observe::part(clip, "width"@))
    &&& is_number(observe::part(clip, "height"@))
}

/// A screenshot is asked of the web view of the target: of the rectangle that the
/// parameters give, where they give all four numbers, and else of all of it.
pub proof fn law_screenshot_is_asked(
    before: State,
    ticket: TicketView,
    params: Json,
    after: State,
    asked: Option<Asked>,
    connection_id: u64,
    session: Option<Seq<char>>,
)
    requires
        led(before, ticket, "Page.captureScreenshot"@, params, after, asked),
    ensures
        ({
            let target_id = target_of(before, ticket);
            let wanted = observe::part(params, "clip"@);
            if before.targets.contains_key(target_id) {
                &&& after == before
                &&& asked matches Some(Asked::Screenshot { ticket: t, webview_id, clip })
                &&& t == ticket
                &&& webview_id == before.targets[target_id].webview_id
                &&& match clip {
                    Some(clip) => {
                        &&& is_rectangle(wanted)
                        &&& clip.x == observe::part(wanted, "x"@)
                        &&& clip.y == observe::part(wanted, "y"@)
                        &&& clip.width == observe::part(wanted, "width"@)
                        &&& clip.height == observe::part(wanted, "height"@)
                    },
                    None => !is_rectangle(wanted),
                }
            } else {
                &&& asked is None
                &&& only_refusal(
                    before,
                    after,
                    ticket,
                    -32000,
                    "Target not found"@,
                    connection_id,
                    session,
                )
            }
        }),
{
    let now = lemma_led(before, ticket, "Page.captureScreenshot"@, params, after, asked);
    methods::lemma_session_methods("Page.captureScreenshot"@);
    lemma_refused(
        before,
        ticket,
        protocol::ERROR_SERVER_ERROR,
        "Target not found"@,
        connection_id,
        session,
    );
}

/// An evaluation asks the browser to evaluate that expression in that pipeline,
/// which is ready, and changes nothing; or it is refused because it is not.
pub open spec fn asks_or_refuses(
    before: State,
    ticket: TicketView,
    pipeline_id: u64,
    expression: Seq<char>,
    after: State,
    asked: Option<Asked>,
    connection_id: u64,
    session: Option<Seq<char>>,
) -> bool {
    if before.pipelines.contains_key(pipeline_id) && before.pipelines[pipeline_id].ready {
        &&& after == before
        &&& asked == Some(Asked::Evaluate { ticket, pipeline_id, expression })
    } else {
        &&& asked is None
        &&& only_refusal(
            before,
            after,
            ticket,
            -32000,
            "Target is not ready for evaluation"@,
            connection_id,
            session,
        )
    }
}

proof fn lemma_evaluate_in(
    before: State,
    ticket: TicketView,
    pipeline_id: u64,
    expression: Seq<char>,
    connection_id: u64,
    session: Option<Seq<char>>,
)
    ensures
        ({
            let (after, asked) = session::evaluate_in(before, ticket, pipeline_id, expression);
            asks_or_refuses(
                before,
                ticket,
                pipeline_id,
                expression,
                after,
                asked,
                connection_id,
                session,
            )
        }),
{
    lemma_refused(
        before,
        ticket,
        protocol::ERROR_SERVER_ERROR,
        "Target is not ready for evaluation"@,
        connection_id,
        session,
    );
}

/// An expression is evaluated in the pipeline that the target shows. A script is
/// given as its source, or else as an expression.
pub proof fn law_evaluation_is_asked(
    before: State,
    ticket: TicketView,
    method: Seq<char>,
    params: Json,
    after: State,
    asked: Option<Asked>,
    connection_id: u64,
    session: Option<Seq<char>>,
)
    requires
        led(before, ticket, method, params, after, asked),
        method == "Runtime.evaluate"@ || method == "Runtime.runScript"@,
    ensures
        ({
            let target_id = target_of(before, ticket);
            let wanted = if method == "Runtime.runScript"@ && observe::part(params, "source"@)
                is Text {
                observe::part(params, "source"@)
            } else {
                observe::part(params, "expression"@)
            };
            match wanted {
                Json::Text(expression) => if before.targets.contains_key(target_id)
                    && before.targets[target_id].current_pipeline is Some {
                    asks_or_refuses(
                        before,
                        ticket,
                        before.targets[target_id].current_pipeline->Some_0,
                        expression,
                        after,
                        asked,
                        connection_id,
                        session,
                    )
                } else {
                    &&& asked is None
                    &&& only_refusal(
                        before,
                        after,
                        ticket,
                        -32000,
                        "Target has no execution context"@,
                        connection_id,
                        session,
                    )
                },
                _ => {
                    &&& asked is None
                    &&& only_refusal(
                        before,
                        after,
                        ticket,
                        -32600,
                        "'expression' parameter is required"@,
                        connection_id,
                        session,
                    )
                },
            }
        }),
{
    let now = lemma_led(before, ticket, method, params, after, asked);
    methods::lemma_session_methods(method);
    assert(session::session_command("Runtime.evaluate"@) != session::session_command(
        "Runtime.runScript"@,
    ));
    let target_id = target_of(before, ticket);
    let expression = if method == "Runtime.runScript"@ {
        session::script_source(params)
    } else {
        json::text_member(params, "expression"@)
    };
    assert((after, asked) == session::evaluate_step(before, ticket, target_id, expression));
    if let Some(expression) = expression {
        if let Some(pipeline_id) = events::previous_pipeline(before, target_id) {
            lemma_evaluate_in(before, ticket, pipeline_id, expression, connection_id, session);
        }
    }
    lemma_refused(
        before,
        ticket,
        protocol::ERROR_SERVER_ERROR,
        "Target has no execution context"@,
        connection_id,
        session,
    );
    lemma_refused(
        before,
        ticket,
        protocol::ERROR_INVALID_REQUEST,
        "'expression' parameter is required"@,
        connection_id,
        session,
    );
}

/// The literals of a list of call arguments: `null`, `true` and `false`, and the
/// JSON texts of all others.
pub open spec fn are_literals(literals: Seq<Seq<char>>, arguments: Json) -> bool {
    let list = observe::items(arguments);
    &&& literals.len() == list.len()
    &&& forall|i: int|
        0 <= i < list.len() ==> (#[trigger] literals[i]) == match list[i] {
            Json::Null => "null"@,
            Json::Bool(truth) => if truth {
                "true"@
            } else {
                "false"@
            },
            other => json::json_text(other),
        }
}

/// A function is called in the pipeline of the execution context, with the
/// arguments as literals, in order. Without such a context the call is refused.
pub proof fn law_call_is_asked(
    before: State,
    ticket: TicketView,
    params: Json,
    after: State,
    asked: Option<Asked>,
    connection_id: u64,
    session: Option<Seq<char>>,
)
    requires
        led(before, ticket, "Runtime.callFunctionOn"@, params, after, asked),
    ensures
        match observe::part(params, "functionDeclaration"@) {
            Json::Text(function) => match json::int_in(
                observe::part(params, "executionContextId"@),
            ) {
                Some(context) => {
                    ||| {
                        &&& asked is None
                        &&& forall|id: u64| #[trigger]
                            before.pipelines.contains_key(id)
                                ==> before.pipelines[id].execution_context_id != context
                        &&& only_refusal(
                            before,
                            after,
                            ticket,
                            -32000,
                            "Cannot find execution context with given id"@,
                            connection_id,
                            session,
                        )
                    }
                    ||| exists|pipeline_id: u64, literals: Seq<Seq<char>>|
                        before.pipelines.contains_key(pipeline_id)
                            && before.pipelines[pipeline_id].execution_context_id == context
                            && are_literals(literals, observe::part(params, "arguments"@))
                            && #[trigger] asks_or_refuses(
                            before,
                            ticket,
                            pipeline_id,
                            "("@ + function + ").apply(undefined, ["@ + #[trigger] text::joined(
                                literals,
                                ", "@,
                            ) + "])"@,
                            after,
                            asked,
                            connection_id,
                            session,
                        )
                },
                None => {
                    &&& asked is None
                    &&& only_refusal(
                        before,
                        after,
                        ticket,
                        -32000,
                        "Runtime.callFunctionOn only supports the 'executionContextId' flavor"@,
                        connection_id,
                        session,
                    )
                },
            },
            _ => {
                &&& asked is None
                &&& only_refusal(
                    before,
                    after,
                    ticket,
                    -32600,
                    "'functionDeclaration' parameter is required"@,
                    connection_id,
                    session,
                )
            },
        },
{
    let now = lemma_led(before, ticket, "Runtime.callFunctionOn"@, params, after, asked);
    methods::lemma_session_methods("Runtime.callFunctionOn"@);
    let server_error = protocol::ERROR_SERVER_ERROR;
    lemma_refused(
        before,
        ticket,
        server_error,
        "Cannot find execution context with given id"@,
        connection_id,
        session,
    );
    lemma_refused(
        before,
        ticket,
        server_error,
        "Runtime.callFunctionOn only supports the 'executionContextId' flavor"@,
        connection_id,
        session,
    );
    lemma_refused(
        before,
        ticket,
        protocol::ERROR_INVALID_REQUEST,
        "'functionDeclaration' parameter is required"@,
        connection_id,
        session,
    );
    if let Some(function) = json::text_member(params, "functionDeclaration"@) {
        if let Some(context) = json::int_member(params, "executionContextId"@) {
            let found = choose|found: Option<u64>| #[trigger]
                session::context_found(before, context, found) && (after, asked)
                    == session::call_in(before, ticket, function, params, found);
            match found {
                Some(pipeline_id) => {
                    let literals = session::call_arguments(params);
                    assert(are_literals(literals, observe::part(params, "arguments"@)));
                    let expression = "("@ + function + ").apply(undefined, ["@ + text::joined(
                        literals,
                        ", "@,
                    ) + "])"@;
                    lemma_evaluate_in(
                        before,
                        ticket,
                        pipeline_id,
                        expression,
                        connection_id,
                        session,
                    );
                    assert(asks_or_refuses(
                        before,
                        ticket,
                        pipeline_id,
                        expression,
                        after,
                        asked,
                        connection_id,
                        session,
                    ));
                },
                None => {
                    assert forall|id: u64| #[trigger]
                        before.pipelines.contains_key(id) implies
                        before.pipelines[id].execution_context_id != context by {
                        assert(!session::has_context(before, context, id));
                    }
                },
            }
        }
    }
}

/// Compiling a script, and asking for cookies, messages, metrics or domains, is
/// answered at once, and changes nothing.
pub proof fn law_plain_questions_are_answered(
    before: State,
    ticket: TicketView,
    method: Seq<char>,
    params: Json,
    user_agent: Seq<char>,
    now: Json,
    after: State,
    asked: Option<Asked>,
    connection_id: u64,
    session: Option<Seq<char>>,
)
    requires
        before.sessions.contains_key(ticket.session_id),
        before.sessions[ticket.session_id].connection_id == ticket.connection_id,
        session::session_step(before, ticket, method, params, user_agent, now, after, asked),
        method == "Runtime.compileScript"@ || method == "Network.getCookies"@ || method
            == "Storage.getCookies"@ || method == "Console.getMessages"@ || method
            == "Performance.getMetrics"@ || method == "Schema.getDomains"@,
    ensures
        asked is None,
        exists|result: Json| #[trigger]
            only_reply(before, after, ticket, result, connection_id, session) && {
                let metrics = observe::items(observe::part(result, "metrics"@));
                let none = Json::Array(Seq::empty());
                &&& method == "Runtime.compileScript"@ ==> observe::part(result, "scriptId"@)
                    == Json::Text("0"@)
                &&& method == "Network.getCookies"@ || method == "Storage.getCookies"@
                    ==> observe::part(result, "cookies"@) == none
                &&& method == "Console.getMessages"@ ==> observe::part(result, "messages"@) == none
                &&& method == "Schema.getDomains"@ ==> observe::part(result, "domains"@) == none
                &&& method == "Performance.getMetrics"@ ==> {
                    &&& metrics.len() == 1
                    &&& observe::part(metrics[0], "name"@) == Json::Text("Timestamp"@)
                    &&& observe::part(metrics[0], "value"@) == now
                }
            },
{
    methods::lemma_session_methods(method);
    names::lemma_metrics_names();
    let result = if method == "Runtime.compileScript"@ {
        Json::Object(map!["scriptId"@ => Json::Text("0"@)])
    } else if method == "Console.getMessages"@ {
        Json::Object(map!["messages"@ => Json::Array(Seq::empty())])
    } else if method == "Schema.getDomains"@ {
        Json::Object(map!["domains"@ => Json::Array(Seq::empty())])
    } else if method == "Performance.getMetrics"@ {
        session::metrics_reply(now)
    } else {
        Json::Object(map!["cookies"@ => Json::Array(Seq::empty())])
    };
    assert(after == before.session_answer(ticket, result));
    lemma_answered(before, ticket, result, connection_id, session);
}

/// A MIME type is that of a text: one of the `text` types, or one of the six
/// others that are written as text, with or without parameters.
pub open spec fn is_textual(mime_type: Seq<char>, essence: Seq<char>) -> bool {
    ||| mime_type.len() >= 5 && mime_type.subrange(0, 5) == "text/"@
    ||| essence == "application/json"@
    ||| essence == "application/javascript"@
    ||| essence == "application/xml"@
    ||| essence == "application/xhtml+xml"@
    ||| essence == "image/svg+xml"@
    ||| essence == "application/x-www-form-urlencoded"@
}

/// What stands in front of the first semicolon.
pub open spec fn is_essence(essence: Seq<char>, mime_type: Seq<char>) -> bool {
    &&& essence.len() <= mime_type.len()
    &&& essence == mime_type.subrange(0, essence.len() as int)
    &&& forall|i: int| 0 <= i < essence.len() ==> essence[i] != ';'
    &&& essence.len() < mime_type.len() ==> mime_type[essence.len() as int] == ';'
}

/// A body that was kept can be had back: that of a textual response is the text
/// that its bytes decode to, and of any other the bytes are what its base64
/// stands for. A body that was not kept, and a request that is not known, is
/// refused; nothing changes.
pub proof fn law_body_can_be_had_back(
    before: State,
    ticket: TicketView,
    params: Json,
    after: State,
    asked: Option<Asked>,
    essence: Seq<char>,
    connection_id: u64,
    session: Option<Seq<char>>,
)
    requires
        led(before, ticket, "Network.getResponseBody"@, params, after, asked),
        observe::part(params, "requestId"@) matches Json::Text(request_id) ==> is_essence(
            essence,
            before.network_requests[request_id].mime_type,
        ),
    ensures
        asked is None,
        match observe::part(params, "requestId"@) {
            Json::Text(request_id) => if before.network_requests.contains_key(request_id) {
                let request = before.network_requests[request_id];
                match request.body {
                    Some(bytes) => exists|result: Json| #[trigger]
                        only_reply(before, after, ticket, result, connection_id, session) && {
                            &&& observe::part(result, "base64Encoded"@) == Json::Bool(
                                !is_textual(request.mime_type, essence),
                            )
                            &&& observe::part(result, "body"@) matches Json::Text(body)
                                && if is_textual(request.mime_type, essence) {
                                body == text::decoded_text(bytes)
                            } else {
                                encoding::base64_bytes(body) == bytes
                            }
                        },
                    None => only_refusal(
                        before,
                        after,
                        ticket,
                        -32000,
                        "Response body is not available"@,
                        connection_id,
                        session,
                    ),
                }
            } else {
                only_refusal(
                    before,
                    after,
                    ticket,
                    -32000,
                    "Request not found"@,
                    connection_id,
                    session,
                )
            },
            _ => only_refusal(
                before,
                after,
                ticket,
                -32600,
                "'requestId' parameter is required"@,
                connection_id,
                session,
            ),
        },
{
    let now = lemma_led(before, ticket, "Network.getResponseBody"@, params, after, asked);
    methods::lemma_session_methods("Network.getResponseBody"@);
    names::lemma_body_names();
    let server_error = protocol::ERROR_SERVER_ERROR;
    lemma_refused(
        before,
        ticket,
        server_error,
        "Response body is not available"@,
        connection_id,
        session,
    );
    lemma_refused(before, ticket, server_error, "Request not found"@, connection_id, session);
    lemma_refused(
        before,
        ticket,
        protocol::ERROR_INVALID_REQUEST,
        "'requestId' parameter is required"@,
        connection_id,
        session,
    );
    if let Some(request_id) = json::text_member(params, "requestId"@) {
        if before.network_requests.contains_key(request_id) {
            let request = before.network_requests[request_id];
            if let Some(bytes) = request.body {
                let mime_type = request.mime_type;
                text::lemma_position(mime_type, ';');
                let cut = text::position(mime_type, ';');
                if cut < essence.len() {
                    assert(essence[cut] == mime_type[cut]);
                }
                if essence.len() < cut {
                    assert(mime_type[essence.len() as int] != ';');
                }
                assert(text::before(mime_type, ';') =~= essence);
                reveal_strlit("text/");
                assert("text/"@.len() == 5);
                encoding::law_base64_can_be_undone(bytes);
                let result = session::body_reply(bytes, mime_type);
                lemma_answered(before, ticket, result, connection_id, session);
            }
        }
    }
}

/// Why the target has no document that can be read.
pub open spec fn lacks_document(state: State, target_id: u64, reason: Seq<char>) -> bool {
    if !state.targets.contains_key(target_id) {
        reason == "Target not found"@
    } else {
        match state.targets[target_id].current_pipeline {
            Some(pipeline_id) => {
                &&& reason == "Target is not ready"@
                &&& !is_current(state, target_id, pipeline_id)
            },
            None => reason == "Target has no execution context"@,
        }
    }
}

proof fn lemma_low_bits(n: i64)
    ensures
        (n - (n as i32)) % 0x1_0000_0000 == 0,
{
    assert((n - (n as i32)) % 0x1_0000_0000 == 0) by (bit_vector);
}

/// A document is asked of the pipeline that the target shows, down to the depth
/// that the parameters give, of which the lower 32 bits count, or one level.
pub proof fn law_document_is_asked(
    before: State,
    ticket: TicketView,
    params: Json,
    after: State,
    asked: Option<Asked>,
    connection_id: u64,
    session: Option<Seq<char>>,
)
    requires
        led(before, ticket, "DOM.getDocument"@, params, after, asked),
    ensures
        match asked {
            Some(asked) => {
                &&& after == before
                &&& asked matches Asked::GetDocument { ticket: t, pipeline_id, depth }
                &&& t == ticket
                &&& is_current(before, target_of(before, ticket), pipeline_id)
                &&& json::int_in(observe::part(params, "depth"@)) matches Some(wanted) ==> (wanted
                    - depth) % 0x1_0000_0000 == 0
                &&& json::int_in(observe::part(params, "depth"@)) is None ==> depth == 1
            },
            None => exists|reason: Seq<char>| #[trigger]
                lacks_document(before, target_of(before, ticket), reason) && only_refusal(
                    before,
                    after,
                    ticket,
                    -32000,
                    reason,
                    connection_id,
                    session,
                ),
        },
{
    let now = lemma_led(before, ticket, "DOM.getDocument"@, params, after, asked);
    methods::lemma_session_methods("DOM.getDocument"@);
    lemma_low_bits(session::requested_depth(params));
    let code = protocol::ERROR_SERVER_ERROR;
    let c = connection_id;
    lemma_refused(before, ticket, code, "Target not found"@, c, session);
    lemma_refused(before, ticket, code, "Target is not ready"@, c, session);
    lemma_refused(before, ticket, code, "Target has no execution context"@, c, session);
    let target_id = target_of(before, ticket);
    assert(asked is None ==> lacks_document(
        before,
        target_id,
        if !before.targets.contains_key(target_id) {
            "Target not found"@
        } else if before.targets[target_id].current_pipeline is Some {
            "Target is not ready"@
        } else {
            "Target has no execution context"@
        },
    ));
}

/// The children of a node are asked of the pipeline of the node, under its unique
/// id, down to the depth that the parameters give, and at least one level. A
/// node whose pipeline is not ready is shown without children.
pub proof fn law_children_are_asked(
    before: State,
    ticket: TicketView,
    params: Json,
    after: State,
    asked: Option<Asked>,
    connection_id: u64,
    session: Option<Seq<char>>,
)
    requires
        led(before, ticket, "DOM.requestChildNodes"@, params, after, asked),
    ensures
        match json::int_in(observe::part(params, "nodeId"@)) {
            Some(wanted) => {
                let node = before.dom_nodes[wanted];
                if !before.dom_nodes.contains_key(wanted) {
                    &&& asked is None
                    &&& only_refusal(
                        before,
                        after,
                        ticket,
                        -32000,
                        "Could not find node with given id"@,
                        connection_id,
                        session,
                    )
                } else if before.pipelines.contains_key(node.pipeline_id)
                    && before.pipelines[node.pipeline_id].ready {
                    &&& after == before
                    &&& asked matches Some(
                        Asked::GetChildren { ticket: t, node_id, pipeline_id, unique_id, depth },
                    )
                    &&& t == ticket
                    &&& node_id == wanted
                    &&& pipeline_id == node.pipeline_id
                    &&& unique_id == node.unique_id
                    &&& json::int_in(observe::part(params, "depth"@)) matches Some(n) ==> if n < 1 {
                        depth == 1
                    } else {
                        (n - depth) % 0x1_0000_0000 == 0
                    }
                    &&& json::int_in(observe::part(params, "depth"@)) is None ==> depth == 1
                } else {
                    let new = observe::news(before, after, connection_id, session);
                    &&& asked is None
                    &&& after == (State { outbox: after.outbox, ..before })
                    &&& if connection_id == ticket.connection_id && session == Some(
                        ticket.session_id,
                    ) {
                        &&& new.len() == if ticket.id is Some {
                            2int
                        } else {
                            1
                        }
                        &&& observe::is_event(new[0], "DOM.setChildNodes"@)
                        &&& observe::parameter(new[0], "parentId"@) == Json::Int(wanted as int)
                        &&& observe::parameter(new[0], "nodes"@) == Json::Array(Seq::empty())
                        &&& ticket.id is Some ==> outcome_laws::replies(new[1], ticket, empty())
                    } else {
                        new.len() == 0
                    }
                }
            },
            None => {
                &&& asked is None
                &&& only_refusal(
                    before,
                    after,
                    ticket,
                    -32600,
                    "'nodeId' parameter is required"@,
                    connection_id,
                    session,
                )
            },
        },
{
    let now = lemma_led(before, ticket, "DOM.requestChildNodes"@, params, after, asked);
    methods::lemma_session_methods("DOM.requestChildNodes"@);
    lemma_low_bits(session::at_least_one(session::requested_depth(params)));
    names::lemma_reply_names();
    names::lemma_children_names();
    let c = connection_id;
    lemma_refused(
        before,
        ticket,
        protocol::ERROR_SERVER_ERROR,
        "Could not find node with given id"@,
        c,
        session,
    );
    lemma_refused(
        before,
        ticket,
        protocol::ERROR_INVALID_REQUEST,
        "'nodeId' parameter is required"@,
        c,
        session,
    );
    if let Some(node_id) = json::int_member(params, "nodeId"@) {
        let event = session::children_event(node_id, Seq::empty());
        let message = model::with_session(event, ticket.session_id);
        let sent = before.send(ticket.connection_id, message);
        observe::lemma_with_session(event, ticket.session_id);
        observe::lemma_sent(before, sent, ticket.connection_id, message, c, session);
        lemma_answered(sent, ticket, empty(), c, session);
        observe::lemma_news_compose(
            before,
            sent,
            sent.session_answer(ticket, empty()),
            c,
            session,
        );
    }
}

/// The layout of a node is asked of the pipeline of the node, under its unique
/// id.
pub proof fn law_layout_is_asked(
    before: State,
    ticket: TicketView,
    params: Json,
    after: State,
    asked: Option<Asked>,
    connection_id: u64,
    session: Option<Seq<char>>,
)
    requires
        led(before, ticket, "DOM.getBoxModel"@, params, after, asked),
    ensures
        match json::int_in(observe::part(params, "nodeId"@)) {
            Some(node_id) => {
                let node = before.dom_nodes[node_id];
                if !before.dom_nodes.contains_key(node_id) {
                    &&& asked is None
                    &&& only_refusal(
                        before,
                        after,
                        ticket,
                        -32000,
                        "Could not find node with given id"@,
                        connection_id,
                        session,
                    )
                } else if before.pipelines.contains_key(node.pipeline_id)
                    && before.pipelines[node.pipeline_id].ready {
                    &&& after == before
                    &&& asked == Some(
                        Asked::GetLayout {
                            ticket,
                            pipeline_id: node.pipeline_id,
                            unique_id: node.unique_id,
                        },
                    )
                } else {
                    &&& asked is None
                    &&& only_refusal(
                        before,
                        after,
                        ticket,
                        -32000,
                        "Target is not ready"@,
                        connection_id,
                        session,
                    )
                }
            },
            None => {
                &&& asked is None
                &&& only_refusal(
                    before,
                    after,
                    ticket,
                    -32600,
                    "'nodeId' parameter is required"@,
                    connection_id,
                    session,
                )
            },
        },
{
    let now = lemma_led(before, ticket, "DOM.getBoxModel"@, params, after, asked);
    methods::lemma_session_methods("DOM.getBoxModel"@);
    let c = connection_id;
    let code = protocol::ERROR_SERVER_ERROR;
    lemma_refused(before, ticket, code, "Could not find node with given id"@, c, session);
    lemma_refused(before, ticket, code, "Target is not ready"@, c, session);
    lemma_refused(
        before,
        ticket,
        protocol::ERROR_INVALID_REQUEST,
        "'nodeId' parameter is required"@,
        c,
        session,
    );
}

} // verus!
