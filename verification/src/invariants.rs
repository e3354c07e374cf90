//! What holds of the state of the server at all times.
use vstd::prelude::*;
use vstd::set_lib::*;

use crate::browser;
use crate::control;
use crate::control::ChromeMsg;
use crate::control::ControlMsg;
use crate::control::ScriptMsg;
use crate::dispatch;
use crate::dom;
use crate::dom::NodeTree;
use crate::events;
use crate::events::NavigationStop;
use crate::events::NewGlobal;
use crate::fxmap;
use crate::json::Json;
use crate::model;
use crate::model::NetworkRequest;
use crate::model::State;
use crate::model::Target;
use crate::model::TicketView;
use crate::network;
use crate::network::HttpResponse;
use crate::outcomes;
use crate::requests::Asked;
use crate::server;
use crate::session;
use crate::text;

verus! {

/// The connections have ids that were given out.
pub open spec fn connections_wf(state: State) -> bool {
    &&& state.connections.dom().finite()
    &&& forall|id: u64| #[trigger]
        state.connections.contains_key(id) ==> id < state.next_connection_id
}

/// A session's id is the decimal notation of its number, which was given out,
/// and no connection has two sessions with one target.
pub open spec fn sessions_wf(state: State) -> bool {
    &&& forall|id: Seq<char>| #[trigger]
        state.sessions.contains_key(id) ==> id == text::decimal(
            state.sessions[id].number as nat,
        ) && state.sessions[id].number < state.next_session_number
    &&& forall|a: Seq<char>, b: Seq<char>|
        #![trigger state.sessions.contains_key(a), state.sessions.contains_key(b)]
        state.sessions.contains_key(a) && state.sessions.contains_key(b)
            && state.sessions[a].connection_id == state.sessions[b].connection_id
            && state.sessions[a].target_id == state.sessions[b].target_id ==> a == b
}

/// The text is a target id that was given out.
pub open spec fn is_given_id(next_target_number: u64, name: Seq<char>) -> bool {
    exists|number: u64| number < next_target_number && name == #[trigger] model::page_id(number)
}

/// A target id leads to the target that has it, and to no other; the ids that
/// are set aside are different from each other and from those of the targets.
pub open spec fn targets_wf(state: State) -> bool {
    &&& state.targets.dom().finite()
    &&& forall|id: u64| #[trigger]
        state.targets.contains_key(id) ==> {
            let name = state.targets[id].target_id_string;
            &&& state.target_ids.contains_key(name)
            &&& state.target_ids[name] == id
            &&& is_given_id(state.next_target_number, name)
        }
    &&& forall|name: Seq<char>| #[trigger]
        state.target_ids.contains_key(name) ==> state.targets.contains_key(state.target_ids[name])
            && state.targets[state.target_ids[name]].target_id_string == name
    &&& forall|webview: u64| #[trigger]
        state.pending_targets.contains_key(webview) ==> is_given_id(
            state.next_target_number,
            state.pending_targets[webview],
        ) && !state.target_ids.contains_key(state.pending_targets[webview])
    &&& forall|a: u64, b: u64|
        #![trigger state.pending_targets.contains_key(a), state.pending_targets.contains_key(b)]
        state.pending_targets.contains_key(a) && state.pending_targets.contains_key(b)
            && state.pending_targets[a] == state.pending_targets[b] ==> a == b
}

/// An execution context id was given out, and belongs to one pipeline.
pub open spec fn pipelines_wf(state: State) -> bool {
    &&& forall|id: u64| #[trigger]
        state.pipelines.contains_key(id) ==> state.pipelines[id].execution_context_id
            < state.next_execution_context_id
    &&& forall|a: u64, b: u64|
        #![trigger state.pipelines.contains_key(a), state.pipelines.contains_key(b)]
        state.pipelines.contains_key(a) && state.pipelines.contains_key(b)
            && state.pipelines[a].execution_context_id == state.pipelines[b].execution_context_id
            ==> a == b
}

/// A node id was given out.
pub open spec fn nodes_wf(state: State) -> bool {
    forall|id: i64| #[trigger] state.dom_nodes.contains_key(id) ==> id < state.next_node_id
}

/// No more than [`model::MAX_REMEMBERED_NETWORK_REQUESTS`] finished requests are
/// remembered, no two of them finished at once, and no body is larger than
/// [`model::MAX_CAPTURED_BODY_SIZE`].
pub open spec fn requests_wf(state: State) -> bool {
    &&& network::finished_requests(state.network_requests).finite()
    &&& network::finished_requests(state.network_requests).len()
        <= model::MAX_REMEMBERED_NETWORK_REQUESTS
    &&& forall|id: Seq<char>| #[trigger]
        state.network_requests.contains_key(id) ==> request_wf(state, state.network_requests[id])
    &&& forall|a: Seq<char>, b: Seq<char>|
        #![trigger state.network_requests.contains_key(a), state.network_requests.contains_key(b)]
        state.network_requests.contains_key(a) && state.network_requests.contains_key(b)
            && state.network_requests[a].finished is Some && state.network_requests[a].finished
            == state.network_requests[b].finished ==> a == b
}

/// What holds of a request that is remembered.
pub open spec fn request_wf(state: State, request: NetworkRequest) -> bool {
    &&& request.finished matches Some(number) ==> number < state.next_finish_number
    &&& request.body matches Some(body) ==> body.len() <= model::MAX_CAPTURED_BODY_SIZE
}

/// What holds of the state of the server.
pub open spec fn wf(state: State) -> bool {
    &&& connections_wf(state)
    &&& sessions_wf(state)
    &&& targets_wf(state)
    &&& pipelines_wf(state)
    &&& nodes_wf(state)
    &&& requests_wf(state)
}

/// A server to which nothing has happened yet is in order.
pub proof fn law_initial_state(web_socket_debugger_url: Seq<char>, browser_id: Seq<char>)
    ensures
        wf(server::initial(web_socket_debugger_url, browser_id)),
{
    let state = server::initial(web_socket_debugger_url, browser_id);
    assert(network::finished_requests(state.network_requests) =~= Set::empty());
}

/// What is queued has no bearing on the order of the state.
pub(crate) proof fn lemma_outbox(before: State, after: State)
    requires
        wf(before),
        after == (State { outbox: after.outbox, ..before }),
    ensures
        wf(after),
{
}

/// Attaching a session keeps the state in order.
proof fn lemma_attach(before: State, connection_id: u64, target_id: u64)
    requires
        wf(before),
        before.next_session_number < u64::MAX,
    ensures
        wf(before.attach(connection_id, target_id)),
        before.attach(connection_id, target_id).next_session_number
            <= before.next_session_number + 1,
        before.attach(connection_id, target_id).next_session_number >= before.next_session_number,
{
    let after = before.attach(connection_id, target_id);
    if !before.has_session(connection_id, target_id) {
        let new_id = text::decimal(before.next_session_number as nat);
        assert forall|id: Seq<char>| #[trigger] before.sessions.contains_key(id) implies id
            != new_id by {
            if id == new_id {
                text::lemma_decimal_injective(
                    before.sessions[id].number as nat,
                    before.next_session_number as nat,
                );
            }
        }
        assert forall|id: Seq<char>| #[trigger] after.sessions.contains_key(id) implies id
            == text::decimal(after.sessions[id].number as nat) && after.sessions[id].number
            < after.next_session_number by {
            if id != new_id {
                assert(before.sessions.contains_key(id));
            }
        }
        assert forall|a: Seq<char>, b: Seq<char>|
            after.sessions.contains_key(a) && after.sessions.contains_key(b)
                && after.sessions[a].connection_id == after.sessions[b].connection_id
                && after.sessions[a].target_id == after.sessions[b].target_id implies a == b by {
            if a != new_id {
                assert(before.sessions.contains_key(a));
            }
            if b != new_id {
                assert(before.sessions.contains_key(b));
            }
        }
        let with_sessions = State {
            sessions: after.sessions,
            next_session_number: after.next_session_number,
            ..before
        };
        assert(wf(with_sessions));
        lemma_outbox(with_sessions, after);
    }
}

pub(crate) proof fn lemma_attach_each(before: State, order: Seq<u64>, target_id: u64)
    requires
        wf(before),
        before.next_session_number + order.len() <= u64::MAX,
    ensures
        wf(events::attach_each(before, order, target_id)),
        events::attach_each(before, order, target_id).next_session_number
            <= before.next_session_number + order.len(),
    decreases order.len(),
{
    if order.len() > 0 {
        lemma_attach_each(before, order.drop_last(), target_id);
        lemma_attach(
            events::attach_each(before, order.drop_last(), target_id),
            order.last(),
            target_id,
        );
    }
}

pub(crate) proof fn lemma_attach_targets(before: State, connection_id: u64, order: Seq<u64>)
    requires
        wf(before),
        before.next_session_number + order.len() <= u64::MAX,
    ensures
        wf(browser::attach_targets(before, connection_id, order)),
        browser::attach_targets(before, connection_id, order).next_session_number
            <= before.next_session_number + order.len(),
    decreases order.len(),
{
    if order.len() > 0 {
        lemma_attach_targets(before, connection_id, order.drop_last());
        lemma_attach(
            browser::attach_targets(before, connection_id, order.drop_last()),
            connection_id,
            order.last(),
        );
    }
}

proof fn lemma_given_id_grows(a: u64, b: u64, name: Seq<char>)
    requires
        is_given_id(a, name),
        a <= b,
    ensures
        is_given_id(b, name),
{
    let number = choose|number: u64| number < a && name == #[trigger] model::page_id(number);
    assert(name == model::page_id(number));
}

/// Different numbers give different target ids.
pub proof fn lemma_page_id_injective(a: u64, b: u64)
    requires
        model::page_id(a) == model::page_id(b),
    ensures
        a == b,
{
    let prefix = "page-"@;
    assert(model::page_id(a).skip(prefix.len() as int) =~= text::decimal(a as nat));
    assert(model::page_id(b).skip(prefix.len() as int) =~= text::decimal(b as nat));
    text::lemma_decimal_injective(a as nat, b as nat);
}

/// The next target id was not given out yet.
proof fn lemma_next_id_is_new(state: State)
    requires
        targets_wf(state),
    ensures
        !state.target_ids.contains_key(model::page_id(state.next_target_number)),
        forall|webview: u64| #[trigger]
            state.pending_targets.contains_key(webview) ==> state.pending_targets[webview]
                != model::page_id(state.next_target_number),
{
    let next = model::page_id(state.next_target_number);
    if is_given_id(state.next_target_number, next) {
        let number = choose|number: u64|
            number < state.next_target_number && next == #[trigger] model::page_id(number);
        lemma_page_id_injective(number, state.next_target_number);
    }
    if state.target_ids.contains_key(next) {
        let id = state.target_ids[next];
        assert(state.targets.contains_key(id));
    }
}

proof fn lemma_target_entered(before: State, global: NewGlobal)
    requires
        wf(before),
        before.next_target_number < u64::MAX,
        !before.targets.contains_key(global.browsing_context_id),
    ensures
        wf(events::target_entered(before, global)),
        events::target_entered(before, global).next_session_number == before.next_session_number,
        events::target_entered(before, global).connections == before.connections,
        events::target_entered(before, global).pipelines == before.pipelines,
        events::target_entered(before, global).next_execution_context_id
            == before.next_execution_context_id,
        events::target_entered(before, global).targets.dom() == before.targets.dom().insert(
            global.browsing_context_id,
        ),
{
    let after = events::target_entered(before, global);
    let name = events::assigned_id(before, global.webview_id);
    let new_id = global.browsing_context_id;
    lemma_next_id_is_new(before);
    assert(!before.target_ids.contains_key(name));
    assert(is_given_id(after.next_target_number, name)) by {
        if before.pending_targets.contains_key(global.webview_id) {
            assert(is_given_id(before.next_target_number, name));
        } else {
            assert(name == model::page_id(before.next_target_number));
        }
    }
    assert(after.targets.dom() =~= before.targets.dom().insert(new_id));
    assert forall|id: u64| #[trigger] after.targets.contains_key(id) implies ({
        let found = after.targets[id].target_id_string;
        &&& after.target_ids.contains_key(found)
        &&& after.target_ids[found] == id
        &&& is_given_id(after.next_target_number, found)
    }) by {
        if id != new_id {
            assert(before.targets.contains_key(id));
            let found = before.targets[id].target_id_string;
            lemma_given_id_grows(before.next_target_number, after.next_target_number, found);
        }
    }
    assert forall|found: Seq<char>| #[trigger] after.target_ids.contains_key(found) implies
        after.targets.contains_key(after.target_ids[found])
        && after.targets[after.target_ids[found]].target_id_string == found by {
        if found != name {
            assert(before.target_ids.contains_key(found));
        }
    }
    assert forall|webview: u64| #[trigger] after.pending_targets.contains_key(webview) implies
        is_given_id(after.next_target_number, after.pending_targets[webview])
        && !after.target_ids.contains_key(after.pending_targets[webview]) by {
        assert(before.pending_targets.contains_key(webview));
        lemma_given_id_grows(
            before.next_target_number,
            after.next_target_number,
            before.pending_targets[webview],
        );
    }
    assert forall|a: u64, b: u64|
        after.pending_targets.contains_key(a) && after.pending_targets.contains_key(b)
            && after.pending_targets[a] == after.pending_targets[b] implies a == b by {
        assert(before.pending_targets.contains_key(a));
        assert(before.pending_targets.contains_key(b));
    }
    assert(targets_wf(after));
}

/// A change of a target that keeps its id keeps the targets in order.
proof fn lemma_target_changed(before: State, target_id: u64, target: Target, after: State)
    requires
        wf(before),
        before.targets.contains_key(target_id),
        target.target_id_string == before.targets[target_id].target_id_string,
        after == (State { targets: before.targets.insert(target_id, target), ..before }),
    ensures
        wf(after),
        after.targets.dom() == before.targets.dom(),
{
    assert(after.targets.dom() =~= before.targets.dom());
    assert forall|id: u64| #[trigger] after.targets.contains_key(id) implies ({
        let found = after.targets[id].target_id_string;
        &&& after.target_ids.contains_key(found)
        &&& after.target_ids[found] == id
        &&& is_given_id(after.next_target_number, found)
    }) by {
        assert(before.targets.contains_key(id));
    }
}

/// Fewer ids set aside keep the targets in order.
proof fn lemma_pending_removed(before: State, webview_id: u64, after: State)
    requires
        wf(before),
        after == (State { pending_targets: before.pending_targets.remove(webview_id), ..before }),
    ensures
        wf(after),
{
    assert forall|webview: u64| #[trigger] after.pending_targets.contains_key(webview) implies
        is_given_id(after.next_target_number, after.pending_targets[webview])
        && !after.target_ids.contains_key(after.pending_targets[webview]) by {
        assert(before.pending_targets.contains_key(webview));
    }
    assert forall|a: u64, b: u64|
        after.pending_targets.contains_key(a) && after.pending_targets.contains_key(b)
            && after.pending_targets[a] == after.pending_targets[b] implies a == b by {
        assert(before.pending_targets.contains_key(a));
        assert(before.pending_targets.contains_key(b));
    }
}

/// A pipeline with the next execution context id keeps the pipelines in order.
proof fn lemma_pipeline_entered(
    before: State,
    pipeline_id: u64,
    pipeline: model::Pipeline,
    after: State,
)
    requires
        wf(before),
        before.next_execution_context_id < i64::MAX,
        pipeline.execution_context_id == before.next_execution_context_id,
        after == (State {
            next_execution_context_id: (before.next_execution_context_id + 1) as i64,
            pipelines: before.pipelines.insert(pipeline_id, pipeline),
            ..before
        }),
    ensures
        wf(after),
{
    assert forall|id: u64| #[trigger] after.pipelines.contains_key(id) implies
        after.pipelines[id].execution_context_id < after.next_execution_context_id by {
        if id != pipeline_id {
            assert(before.pipelines.contains_key(id));
        }
    }
    assert forall|a: u64, b: u64|
        after.pipelines.contains_key(a) && after.pipelines.contains_key(b)
            && after.pipelines[a].execution_context_id == after.pipelines[b].execution_context_id
        implies a == b by {
        if a != pipeline_id {
            assert(before.pipelines.contains_key(a));
        }
        if b != pipeline_id {
            assert(before.pipelines.contains_key(b));
        }
    }
}

pub(crate) proof fn lemma_global_entered(before: State, global: NewGlobal)
    requires
        wf(before),
        before.room(),
    ensures
        wf(events::global_entered(before, global)),
        events::global_entered(before, global).next_session_number == before.next_session_number,
        events::global_entered(before, global).connections == before.connections,
{
    let after = events::global_entered(before, global);
    let target_id = global.browsing_context_id;
    let entry = events::pipeline_entry(
        target_id,
        before.next_execution_context_id,
        global.label@,
        global.page.origin@,
        true,
    );
    if before.targets.contains_key(target_id) {
        let target = events::renewed(before.targets[target_id], global.pipeline_id, global.page);
        let changed = State { targets: before.targets.insert(target_id, target), ..before };
        lemma_target_changed(before, target_id, target, changed);
        let removed = State {
            pending_targets: changed.pending_targets.remove(global.webview_id),
            ..changed
        };
        lemma_pending_removed(changed, global.webview_id, removed);
        lemma_pipeline_entered(removed, global.pipeline_id, entry, after);
    } else {
        lemma_target_entered(before, global);
        lemma_pipeline_entered(
            events::target_entered(before, global),
            global.pipeline_id,
            entry,
            after,
        );
    }
}

/// Fewer pipelines are in order too.
proof fn lemma_pipeline_removed(before: State, gone: u64, after: State)
    requires
        wf(before),
        after == (State { pipelines: before.pipelines.remove(gone), ..before }),
    ensures
        wf(after),
{
    assert forall|id: u64| #[trigger] after.pipelines.contains_key(id) implies
        after.pipelines[id].execution_context_id < after.next_execution_context_id by {
        assert(before.pipelines.contains_key(id));
    }
    assert forall|a: u64, b: u64|
        after.pipelines.contains_key(a) && after.pipelines.contains_key(b)
            && after.pipelines[a].execution_context_id == after.pipelines[b].execution_context_id
        implies a == b by {
        assert(before.pipelines.contains_key(a));
        assert(before.pipelines.contains_key(b));
    }
}

proof fn lemma_new_global_step(before: State, global: NewGlobal, after: State)
    requires
        wf(before),
        before.room(),
        events::new_global_step(before, global, after),
    ensures
        wf(after),
{
    if !global.is_worker {
        let target_id = global.browsing_context_id;
        let entered = events::global_entered(before, global);
        let previous = events::previous_pipeline(before, target_id);
        let context = before.next_execution_context_id;
        let (told, destroyed, created) = choose|told: State, destroyed: State, created: State| #[trigger]
            events::global_told(
                entered,
                previous,
                global,
                context,
                told,
                destroyed,
                created,
                after,
            );
        lemma_global_entered(before, global);
        lemma_outbox(entered, told);
        if let Some(gone) = previous {
            if gone != global.pipeline_id && told.pipelines.contains_key(gone) {
                let removed = State { pipelines: told.pipelines.remove(gone), ..told };
                lemma_pipeline_removed(told, gone, removed);
                lemma_outbox(removed, destroyed);
            }
        }
        assert(wf(destroyed));
        lemma_outbox(destroyed, created);
        if previous is None {
            let order = choose|order: Seq<u64>| #[trigger]
                fxmap::lists(
                    order,
                    events::subscribers(created.connections, events::Subscription::AutoAttach),
                ) && after == events::attach_each(created, order, target_id);
            let chosen = events::subscribers(
                created.connections,
                events::Subscription::AutoAttach,
            );
            fxmap::lemma_lists_len(order, chosen);
            assert(chosen.subset_of(created.connections.dom()));
            lemma_len_subset(chosen, created.connections.dom());
            lemma_attach_each(created, order, target_id);
        }
    }
}

proof fn lemma_navigation_start_step(
    before: State,
    target_id: u64,
    url: Seq<char>,
    origin: Seq<char>,
    after: State,
)
    requires
        wf(before),
        events::navigation_start_step(before, target_id, url, origin, after),
    ensures
        wf(after),
{
    if before.targets.contains_key(target_id) {
        let target = events::loading_started(before.targets[target_id], url, origin);
        let entered = State { targets: before.targets.insert(target_id, target), ..before };
        let started = choose|started: State| #[trigger]
            events::start_told(entered, target_id, started, after);
        lemma_target_changed(before, target_id, target, entered);
        lemma_outbox(entered, started);
        lemma_outbox(started, after);
    }
}

proof fn lemma_navigation_stop_step(before: State, stop: NavigationStop, after: State)
    requires
        wf(before),
        before.next_execution_context_id < i64::MAX,
        events::navigation_stop_step(before, stop, after),
    ensures
        wf(after),
{
    let target_id = stop.browsing_context_id;
    if before.targets.contains_key(target_id) {
        let entered = events::stop_entered(before, stop);
        let (navigated, stopped) = choose|navigated: State, stopped: State| #[trigger]
            events::stop_told(entered, stop, navigated, stopped, after);
        let target = Target {
            loading: false,
            ..events::renewed(before.targets[target_id], stop.pipeline_id, stop.page)
        };
        let changed = State { targets: before.targets.insert(target_id, target), ..before };
        lemma_target_changed(before, target_id, target, changed);
        if !before.pipelines.contains_key(stop.pipeline_id) {
            let entry = events::pipeline_entry(
                target_id,
                before.next_execution_context_id,
                stop.label@,
                stop.page.origin@,
                false,
            );
            lemma_pipeline_entered(changed, stop.pipeline_id, entry, entered);
        }
        lemma_outbox(entered, navigated);
        lemma_outbox(navigated, stopped);
        lemma_outbox(stopped, after);
    }
}

proof fn lemma_script_step(before: State, msg: ScriptMsg, after: State)
    requires
        wf(before),
        before.room(),
        control::script_step(before, msg, after),
    ensures
        wf(after),
{
    match msg {
        ScriptMsg::NewGlobal(global) => {
            lemma_new_global_step(before, global, after);
        },
        ScriptMsg::NavigationStart { browsing_context_id, url, origin } => {
            lemma_navigation_start_step(before, browsing_context_id, url@, origin@, after);
        },
        ScriptMsg::NavigationStop(stop) => {
            lemma_navigation_stop_step(before, stop, after);
        },
        ScriptMsg::ConsoleApi { pipeline_id, message, is_worker } => {
            if !is_worker && before.pipelines.contains_key(pipeline_id) {
                let called = choose|called: State| #[trigger]
                    events::console_told(
                        before,
                        before.pipelines[pipeline_id],
                        message,
                        called,
                        after,
                    );
                lemma_outbox(before, called);
                lemma_outbox(called, after);
            }
        },
        ScriptMsg::ClearConsole { pipeline_id, is_worker } => {
            if !is_worker && before.pipelines.contains_key(pipeline_id) {
                lemma_outbox(before, after);
            }
        },
        ScriptMsg::TitleChanged { pipeline_id, title } => {
            let target_id = before.pipelines[pipeline_id].browsing_context_id;
            if before.pipelines.contains_key(pipeline_id) && before.targets.contains_key(
                target_id,
            ) {
                let target = Target { title: title@, ..before.targets[target_id] };
                let changed = events::titled(before, target_id, title@);
                lemma_target_changed(before, target_id, target, changed);
                lemma_outbox(changed, after);
            }
        },
        ScriptMsg::ReportPageError { pipeline_id, error } => {
            if before.pipelines.contains_key(pipeline_id) {
                lemma_outbox(before, after);
            }
        },
        ScriptMsg::Other => {},
    }
}

/// Fewer connections and sessions are in order too.
proof fn lemma_sessions_removed(before: State, gone: Set<Seq<char>>, after: State)
    requires
        wf(before),
        after == before.without_sessions(gone),
    ensures
        wf(after),
{
    assert forall|id: Seq<char>| #[trigger] after.sessions.contains_key(id) implies id
        == text::decimal(after.sessions[id].number as nat) && after.sessions[id].number
        < after.next_session_number by {
        assert(before.sessions.contains_key(id));
    }
    assert forall|a: Seq<char>, b: Seq<char>|
        after.sessions.contains_key(a) && after.sessions.contains_key(b)
            && after.sessions[a].connection_id == after.sessions[b].connection_id
            && after.sessions[a].target_id == after.sessions[b].target_id implies a == b by {
        assert(before.sessions.contains_key(a));
        assert(before.sessions.contains_key(b));
    }
}

/// Removing a connection keeps the state in order.
pub proof fn law_disconnecting_keeps_order(before: State, connection_id: u64)
    requires
        wf(before),
    ensures
        wf(server::disconnected(before, connection_id)),
{
    let gone = server::sessions_of(before, connection_id);
    let without = before.without_sessions(gone);
    lemma_sessions_removed(before, gone, without);
    let after = server::disconnected(before, connection_id);
    assert(after.connections.dom() =~= before.connections.dom().remove(connection_id));
    assert forall|id: u64| #[trigger] after.connections.contains_key(id) implies id
        < after.next_connection_id by {
        assert(before.connections.contains_key(id));
    }
}

/// A new connection keeps the state in order.
pub proof fn law_connecting_keeps_order(before: State)
    requires
        wf(before),
        before.next_connection_id < u64::MAX,
    ensures
        wf(control::connected(before)),
{
    let after = control::connected(before);
    assert(after.connections.dom() =~= before.connections.dom().insert(before.next_connection_id));
    assert forall|id: u64| #[trigger] after.connections.contains_key(id) implies id
        < after.next_connection_id by {
        if id != before.next_connection_id {
            assert(before.connections.contains_key(id));
        }
    }
}

proof fn lemma_request_entered(
    before: State,
    request_id: Seq<char>,
    request: NetworkRequest,
    after: State,
)
    requires
        wf(before),
        request.finished is None,
        request.body is None,
        after == (State {
            network_requests: before.network_requests.insert(request_id, request),
            ..before
        }),
    ensures
        wf(after),
{
    let had = network::finished_requests(before.network_requests);
    let has = network::finished_requests(after.network_requests);
    assert(has =~= had.remove(request_id));
    assert forall|id: Seq<char>| #[trigger] after.network_requests.contains_key(id) implies
        request_wf(after, after.network_requests[id]) by {
        if id != request_id {
            assert(before.network_requests.contains_key(id));
        }
    }
    assert forall|a: Seq<char>, b: Seq<char>|
        after.network_requests.contains_key(a) && after.network_requests.contains_key(b)
            && after.network_requests[a].finished is Some && after.network_requests[a].finished
            == after.network_requests[b].finished implies a == b by {
        assert(before.network_requests.contains_key(a));
        assert(before.network_requests.contains_key(b));
    }
}

/// After a request finished all is in order, but that one finished request too
/// many may be remembered.
proof fn lemma_finished(before: State, request_id: Seq<char>, response: HttpResponse)
    requires
        wf(before),
        before.next_finish_number < u64::MAX,
        before.network_requests.contains_key(request_id),
        before.network_requests[request_id].finished is None,
    ensures
        ({
            let after = network::finished(before, request_id, response);
            &&& network::finished_requests(after.network_requests)
                == network::finished_requests(before.network_requests).insert(request_id)
            &&& network::finished_requests(after.network_requests).len()
                == network::finished_requests(before.network_requests).len() + 1
            &&& network::finished_requests(after.network_requests).finite()
            &&& forall|id: Seq<char>| #[trigger]
                after.network_requests.contains_key(id) ==> request_wf(
                    after,
                    after.network_requests[id],
                )
            &&& forall|a: Seq<char>, b: Seq<char>|
                #![trigger after.network_requests.contains_key(a), after.network_requests.contains_key(b)]
                after.network_requests.contains_key(a) && after.network_requests.contains_key(b)
                    && after.network_requests[a].finished is Some
                    && after.network_requests[a].finished == after.network_requests[b].finished
                    ==> a == b
        }),
{
    let after = network::finished(before, request_id, response);
    let had = network::finished_requests(before.network_requests);
    let has = network::finished_requests(after.network_requests);
    assert(!had.contains(request_id));
    assert(has =~= had.insert(request_id));
    assert forall|id: Seq<char>| #[trigger] after.network_requests.contains_key(id) implies
        request_wf(after, after.network_requests[id]) by {
        if id != request_id {
            assert(before.network_requests.contains_key(id));
        }
    }
    assert forall|a: Seq<char>, b: Seq<char>|
        after.network_requests.contains_key(a) && after.network_requests.contains_key(b)
            && after.network_requests[a].finished is Some && after.network_requests[a].finished
            == after.network_requests[b].finished implies a == b by {
        assert(before.network_requests.contains_key(a));
        assert(before.network_requests.contains_key(b));
        assert(request_wf(before, before.network_requests[a]));
        assert(request_wf(before, before.network_requests[b]));
    }
}

/// The request that just finished is remembered.
pub(crate) proof fn lemma_remembered(
    before: State,
    request_id: Seq<char>,
    response: HttpResponse,
    remembered: State,
)
    requires
        wf(before),
        before.next_finish_number < u64::MAX,
        before.network_requests.contains_key(request_id),
        before.network_requests[request_id].finished is None,
        network::pruned(network::finished(before, request_id, response), remembered),
    ensures
        wf(remembered),
        remembered.network_requests.contains_key(request_id),
        remembered.network_requests[request_id] == network::finished(
            before,
            request_id,
            response,
        ).network_requests[request_id],
        remembered == (State {
            next_finish_number: remembered.next_finish_number,
            network_requests: remembered.network_requests,
            ..before
        }),
{
    let after = network::finished(before, request_id, response);
    let has = network::finished_requests(after.network_requests);
    lemma_finished(before, request_id, response);
    if has.len() > model::MAX_REMEMBERED_NETWORK_REQUESTS {
        let oldest = choose|oldest: Seq<char>| #[trigger]
            network::is_oldest(after.network_requests, oldest) && remembered == (State {
                network_requests: after.network_requests.remove(oldest),
                ..after
            });
        let had = network::finished_requests(before.network_requests);
        assert(had.len() > 0);
        let other = had.choose();
        assert(had.contains(other));
        assert(before.network_requests.contains_key(other));
        assert(request_wf(before, before.network_requests[other]));
        assert(has.contains(other));
        assert(oldest != request_id);
        let left = network::finished_requests(remembered.network_requests);
        assert(left =~= has.remove(oldest));
        assert forall|id: Seq<char>| #[trigger] remembered.network_requests.contains_key(
            id,
        ) implies request_wf(remembered, remembered.network_requests[id]) by {
            assert(after.network_requests.contains_key(id));
            assert(request_wf(after, after.network_requests[id]));
        }
        assert forall|a: Seq<char>, b: Seq<char>|
            remembered.network_requests.contains_key(a) && remembered.network_requests.contains_key(
                b,
            ) && remembered.network_requests[a].finished is Some
                && remembered.network_requests[a].finished
                == remembered.network_requests[b].finished implies a == b by {
            assert(after.network_requests.contains_key(a));
            assert(after.network_requests.contains_key(b));
        }
    }
}

proof fn lemma_network_step(
    before: State,
    request_id: Seq<char>,
    event: network::NetworkEvent,
    now: Json,
    after: State,
)
    requires
        wf(before),
        before.room(),
        network::network_step(before, request_id, event, now, after),
    ensures
        wf(after),
{
    match event {
        network::NetworkEvent::HttpRequest(request) => {
            let target_id = request.browsing_context_id;
            if before.targets.contains_key(target_id) {
                let entry = network::in_flight(target_id, request.url@);
                let entered = State {
                    network_requests: before.network_requests.insert(request_id, entry),
                    ..before
                };
                lemma_request_entered(before, request_id, entry, entered);
                lemma_outbox(entered, after);
            }
        },
        network::NetworkEvent::HttpRequestUpdate => {},
        network::NetworkEvent::HttpResponse(response) => {
            if before.network_requests.contains_key(request_id)
                && before.network_requests[request_id].finished is None {
                let (remembered, received) = choose|remembered: State, received: State| #[trigger]
                    network::response_told(
                        before,
                        request_id,
                        response,
                        now,
                        remembered,
                        received,
                        after,
                    );
                lemma_remembered(before, request_id, response, remembered);
                lemma_outbox(remembered, received);
                lemma_outbox(received, after);
            }
        },
        network::NetworkEvent::SecurityInfo => {},
    }
}

/// A browser event keeps the state in order.
pub proof fn law_browser_event_keeps_order(before: State, msg: ControlMsg, now: Json, after: State)
    requires
        wf(before),
        before.room(),
        control::control_step(before, msg, now, after),
    ensures
        wf(after),
{
    match msg {
        ControlMsg::FromScript(msg) => {
            lemma_script_step(before, msg, after);
        },
        ControlMsg::FromChrome(msg) => match msg {
            ChromeMsg::NetworkEvent { request_id, event } => {
                lemma_network_step(before, request_id@, event, now, after);
            },
            ChromeMsg::ServerExit => {
                let gone = control::sessions_among(before, before.connections.dom());
                lemma_sessions_removed(before, gone, before.without_sessions(gone));
                assert(after.connections =~= Map::empty());
                assert(after.connections.dom() =~= Set::empty());
            },
            ChromeMsg::Other => {},
        },
        ControlMsg::ClientExited => {},
    }
}

/// Delivering the queue keeps the state in order.
pub proof fn law_delivery_keeps_order(before: State)
    requires
        wf(before),
    ensures
        wf(server::flushed(before)),
{
    lemma_outbox(before, server::flushed(before));
}

/// A change of what a connection asked for keeps the connections in order.
pub(crate) proof fn lemma_connection_changed(
    before: State,
    connection_id: u64,
    connection: model::CdpConnection,
    after: State,
)
    requires
        wf(before),
        before.connections.contains_key(connection_id),
        after == (State {
            connections: before.connections.insert(connection_id, connection),
            ..before
        }),
    ensures
        wf(after),
{
    assert(after.connections.dom() =~= before.connections.dom());
    assert forall|id: u64| #[trigger] after.connections.contains_key(id) implies id
        < after.next_connection_id by {
        assert(before.connections.contains_key(id));
    }
}

proof fn lemma_browser_step(
    before: State,
    connection_id: u64,
    id: Option<i64>,
    method: Seq<char>,
    params: Json,
    user_agent: Seq<char>,
    after: State,
    asked: Option<Asked>,
)
    requires
        wf(before),
        before.room(),
        browser::browser_step(
            before,
            connection_id,
            id,
            method,
            params,
            user_agent,
            after,
            asked,
        ),
    ensures
        wf(after),
{
    if let Some(id) = id {
        match browser::browser_command(method) {
            browser::BrowserCommand::SetDiscoverTargets => {
                let discover = crate::json::flag_member(params, "discover"@);
                let set = browser::discovery_set(before, connection_id, discover);
                if before.connections.contains_key(connection_id) {
                    lemma_connection_changed(
                        before,
                        connection_id,
                        set.connections[connection_id],
                        set,
                    );
                }
                lemma_outbox(set, after);
            },
            browser::BrowserCommand::SetAutoAttach => {
                let auto_attach = crate::json::flag_member(params, "autoAttach"@);
                let set = browser::auto_attach_set(before, connection_id, auto_attach);
                if before.connections.contains_key(connection_id) {
                    lemma_connection_changed(
                        before,
                        connection_id,
                        set.connections[connection_id],
                        set,
                    );
                }
                if auto_attach {
                    let order = choose|order: Seq<u64>| #[trigger]
                        fxmap::lists(order, before.targets.dom()) && after
                            == browser::attach_targets(set, connection_id, order).answer(
                            connection_id,
                            id,
                            model::nothing(),
                        );
                    fxmap::lemma_lists_len(order, before.targets.dom());
                    lemma_attach_targets(set, connection_id, order);
                    lemma_outbox(browser::attach_targets(set, connection_id, order), after);
                } else {
                    lemma_outbox(set, after);
                }
            },
            browser::BrowserCommand::AttachToTarget => {
                match browser::named_target(before, params) {
                    Some(target_id) => {
                        lemma_attach(before, connection_id, target_id);
                        let attached = before.attach(connection_id, target_id);
                        if crate::json::flag_member(params, "flatten"@) {
                            lemma_outbox(attached, after);
                        } else {
                            lemma_outbox(before, after);
                        }
                    },
                    None => {
                        lemma_outbox(before, after);
                    },
                }
            },
            browser::BrowserCommand::DetachFromTarget => {
                let detached = browser::detached(before, params);
                if let Some(session_id) = crate::json::text_member(params, "sessionId"@) {
                    let gone = Set::empty().insert(session_id);
                    assert(before.sessions.remove_keys(gone) =~= before.sessions.remove(
                        session_id,
                    ));
                    lemma_sessions_removed(before, gone, detached);
                }
                lemma_outbox(detached, after);
            },
            _ => {
                lemma_outbox(before, after);
            },
        }
    }
}

proof fn lemma_domain_turned(
    before: State,
    ticket: TicketView,
    domain: session::Domain,
    on: bool,
)
    requires
        wf(before),
        before.sessions.contains_key(ticket.session_id),
    ensures
        wf(session::domain_turned(before, ticket, domain, on)),
{
    let id = ticket.session_id;
    let changed = State {
        sessions: before.sessions.insert(
            id,
            session::turned(before.sessions[id], domain, on),
        ),
        ..before
    };
    assert forall|other: Seq<char>| #[trigger] changed.sessions.contains_key(other) implies other
        == text::decimal(changed.sessions[other].number as nat) && changed.sessions[other].number
        < changed.next_session_number by {
        assert(before.sessions.contains_key(other));
    }
    assert forall|a: Seq<char>, b: Seq<char>|
        changed.sessions.contains_key(a) && changed.sessions.contains_key(b)
            && changed.sessions[a].connection_id == changed.sessions[b].connection_id
            && changed.sessions[a].target_id == changed.sessions[b].target_id implies a == b by {
        assert(before.sessions.contains_key(a));
        assert(before.sessions.contains_key(b));
    }
    assert(wf(changed));
    lemma_outbox(changed, session::domain_turned(before, ticket, domain, on));
}

proof fn lemma_session_step(
    before: State,
    ticket: TicketView,
    method: Seq<char>,
    params: Json,
    user_agent: Seq<char>,
    now: Json,
    after: State,
    asked: Option<Asked>,
)
    requires
        wf(before),
        before.room(),
        session::session_step(before, ticket, method, params, user_agent, now, after, asked),
    ensures
        wf(after),
{
    if !session::is_own_session(before, ticket) {
        lemma_outbox(before, after);
    } else if text::begins_with(method, "Target."@) {
        lemma_browser_step(
            before,
            ticket.connection_id,
            ticket.id,
            method,
            params,
            user_agent,
            after,
            asked,
        );
    } else {
        match session::session_command(method) {
            session::SessionCommand::Enable(domain) => {
                lemma_domain_turned(before, ticket, domain, true);
                lemma_outbox(session::domain_turned(before, ticket, domain, true), after);
            },
            session::SessionCommand::Disable(domain) => {
                lemma_domain_turned(before, ticket, domain, false);
            },
            _ => {
                lemma_outbox(before, after);
            },
        }
    }
}

/// A message from a client keeps the state in order.
pub proof fn law_client_message_keeps_order(
    before: State,
    connection_id: u64,
    message: Json,
    user_agent: Seq<char>,
    now: Json,
    after: State,
    asked: Option<Asked>,
)
    requires
        wf(before),
        before.room(),
        dispatch::message_step(before, connection_id, message, user_agent, now, after, asked),
    ensures
        wf(after),
{
    let id = crate::json::int_member(message, "id"@);
    let method = dispatch::method_of(message);
    let params = dispatch::params_of(message);
    if dispatch::is_carrier(message) {
        lemma_outbox(before, after);
    } else {
        match crate::json::text_member(message, "sessionId"@) {
            Some(session_id) => {
                lemma_session_step(
                    before,
                    TicketView { connection_id, id, session_id },
                    method,
                    params,
                    user_agent,
                    now,
                    after,
                    asked,
                );
            },
            None => {
                lemma_browser_step(
                    before,
                    connection_id,
                    id,
                    method,
                    params,
                    user_agent,
                    after,
                    asked,
                );
            },
        }
    }
}

/// Setting an id aside for a new target keeps the state in order.
pub proof fn law_creating_keeps_order(
    before: State,
    connection_id: u64,
    id: i64,
    outcome: outcomes::CreateOutcome,
)
    requires
        wf(before),
        before.next_target_number < u64::MAX,
    ensures
        wf(outcomes::create_finished(before, connection_id, id, outcome)),
{
    let after = outcomes::create_finished(before, connection_id, id, outcome);
    match outcome {
        outcomes::CreateOutcome::Created(webview_id) => {
            let name = model::page_id(before.next_target_number);
            lemma_next_id_is_new(before);
            assert(is_given_id(after.next_target_number, name));
            assert forall|id: u64| #[trigger] after.targets.contains_key(id) implies ({
                let found = after.targets[id].target_id_string;
                &&& after.target_ids.contains_key(found)
                &&& after.target_ids[found] == id
                &&& is_given_id(after.next_target_number, found)
            }) by {
                assert(before.targets.contains_key(id));
                lemma_given_id_grows(
                    before.next_target_number,
                    after.next_target_number,
                    before.targets[id].target_id_string,
                );
            }
            assert forall|webview: u64| #[trigger] after.pending_targets.contains_key(
                webview,
            ) implies is_given_id(after.next_target_number, after.pending_targets[webview])
                && !after.target_ids.contains_key(after.pending_targets[webview]) by {
                if webview != webview_id {
                    assert(before.pending_targets.contains_key(webview));
                    lemma_given_id_grows(
                        before.next_target_number,
                        after.next_target_number,
                        before.pending_targets[webview],
                    );
                }
            }
            assert forall|a: u64, b: u64|
                after.pending_targets.contains_key(a) && after.pending_targets.contains_key(b)
                    && after.pending_targets[a] == after.pending_targets[b] implies a == b by {
                if a != webview_id {
                    assert(before.pending_targets.contains_key(a));
                }
                if b != webview_id {
                    assert(before.pending_targets.contains_key(b));
                }
            }
            assert(targets_wf(after));
        },
        _ => {
            lemma_outbox(before, after);
        },
    }
}

/// Closing a target keeps the state in order.
pub proof fn law_closing_keeps_order(
    before: State,
    connection_id: u64,
    id: i64,
    target_id: Seq<char>,
    closed: bool,
)
    requires
        wf(before),
    ensures
        wf(outcomes::close_finished(before, connection_id, id, target_id, closed)),
{
    let after = outcomes::close_finished(before, connection_id, id, target_id, closed);
    if closed {
        let gone = outcomes::sessions_on(before, target_id);
        let without = before.without_sessions(gone);
        lemma_sessions_removed(before, gone, without);
        lemma_outbox(without, after);
    } else {
        lemma_outbox(before, after);
    }
}

/// Showing a tree gives its nodes the next node ids, and changes nothing else:
/// the nodes that were known keep theirs.
pub proof fn law_tree_gets_fresh_node_ids(
    before: State,
    pipeline_id: u64,
    tree: NodeTree,
    depth: i32,
)
    requires
        wf(before),
        before.next_node_id + dom::shown_count(tree, depth) <= i64::MAX,
    ensures
        ({
            let (after, shown) = dom::tree_shown(before, pipeline_id, tree, depth);
            &&& wf(after)
            &&& after == (State {
                next_node_id: after.next_node_id,
                dom_nodes: after.dom_nodes,
                ..before
            })
            &&& after.next_node_id == before.next_node_id + dom::shown_count(tree, depth)
            &&& forall|id: i64|
                id < before.next_node_id ==> #[trigger] after.dom_nodes.contains_key(id)
                    == before.dom_nodes.contains_key(id) && after.dom_nodes[id]
                    == before.dom_nodes[id]
            &&& after.dom_nodes.contains_key(before.next_node_id)
            &&& after.dom_nodes[before.next_node_id] == (model::DomNode {
                pipeline_id,
                unique_id: tree.info.unique_id@,
            })
        }),
    decreases tree,
{
    let entered = dom::node_entered(before, pipeline_id, tree.info);
    assert forall|id: i64| #[trigger] entered.dom_nodes.contains_key(id) implies id
        < entered.next_node_id by {
        if id != before.next_node_id {
            assert(before.dom_nodes.contains_key(id));
        }
    }
    assert(wf(entered));
    if dom::shows_children(tree.info, depth) {
        law_trees_get_fresh_node_ids(entered, pipeline_id, tree.children@, depth);
        let after = dom::trees_shown(entered, pipeline_id, tree.children@, depth).0;
        assert(after.dom_nodes.contains_key(before.next_node_id) == entered.dom_nodes.contains_key(
            before.next_node_id,
        ));
        assert forall|id: i64| id < before.next_node_id implies
            #[trigger] after.dom_nodes.contains_key(id) == before.dom_nodes.contains_key(id)
            && after.dom_nodes[id] == before.dom_nodes[id] by {
            assert(after.dom_nodes.contains_key(id) == entered.dom_nodes.contains_key(id));
        }
    }
}

/// The same of the children of a node.
pub proof fn law_trees_get_fresh_node_ids(
    before: State,
    pipeline_id: u64,
    trees: Seq<NodeTree>,
    depth: i32,
)
    requires
        wf(before),
        before.next_node_id + dom::shown_counts(trees, depth) <= i64::MAX,
    ensures
        ({
            let (after, shown) = dom::trees_shown(before, pipeline_id, trees, depth);
            &&& wf(after)
            &&& after == (State {
                next_node_id: after.next_node_id,
                dom_nodes: after.dom_nodes,
                ..before
            })
            &&& after.next_node_id == before.next_node_id + dom::shown_counts(trees, depth)
            &&& forall|id: i64|
                id < before.next_node_id ==> #[trigger] after.dom_nodes.contains_key(id)
                    == before.dom_nodes.contains_key(id) && after.dom_nodes[id]
                    == before.dom_nodes[id]
        }),
    decreases trees,
{
    if trees.len() > 0 {
        law_trees_get_fresh_node_ids(before, pipeline_id, trees.drop_last(), depth);
        let middle = dom::trees_shown(before, pipeline_id, trees.drop_last(), depth).0;
        law_tree_gets_fresh_node_ids(middle, pipeline_id, trees.last(), dom::below(depth));
        let after = dom::trees_shown(before, pipeline_id, trees, depth).0;
        assert forall|id: i64| id < before.next_node_id implies
            #[trigger] after.dom_nodes.contains_key(id) == before.dom_nodes.contains_key(id)
            && after.dom_nodes[id] == before.dom_nodes[id] by {
            assert(after.dom_nodes.contains_key(id) == middle.dom_nodes.contains_key(id));
            assert(middle.dom_nodes.contains_key(id) == before.dom_nodes.contains_key(id));
        }
    }
}

/// Reading a document keeps the state in order.
pub proof fn law_document_keeps_order(
    before: State,
    ticket: TicketView,
    pipeline_id: u64,
    depth: i32,
    outcome: outcomes::DocumentOutcome,
)
    requires
        wf(before),
        outcomes::document_fits(before, outcome, depth),
    ensures
        wf(outcomes::document_finished(before, ticket, pipeline_id, depth, outcome)),
{
    let after = outcomes::document_finished(before, ticket, pipeline_id, depth, outcome);
    match outcome {
        outcomes::DocumentOutcome::Read(tree) => {
            law_tree_gets_fresh_node_ids(before, pipeline_id, tree, depth);
            lemma_outbox(dom::tree_shown(before, pipeline_id, tree, depth).0, after);
        },
        _ => {
            lemma_outbox(before, after);
        },
    }
}

/// Reading the children of a node keeps the state in order.
pub proof fn law_children_keep_order(
    before: State,
    ticket: TicketView,
    node_id: i64,
    pipeline_id: u64,
    depth: i32,
    outcome: outcomes::ChildrenOutcome,
)
    requires
        wf(before),
        outcomes::children_fit(before, outcome, depth),
    ensures
        wf(
            outcomes::children_finished(before, ticket, node_id, pipeline_id, depth, outcome),
        ),
{
    let after = outcomes::children_finished(
        before,
        ticket,
        node_id,
        pipeline_id,
        depth,
        outcome,
    );
    if outcome is TimedOut {
        lemma_outbox(before, after);
    } else {
        let children = outcomes::shown_children(outcome);
        law_trees_get_fresh_node_ids(before, pipeline_id, children, depth);
        lemma_outbox(dom::trees_shown(before, pipeline_id, children, depth).0, after);
    }
}

/// Answering or refusing a command of a session keeps the state in order.
pub proof fn law_session_replies_keep_order(
    before: State,
    ticket: TicketView,
    result: Json,
    code: i64,
    message: Seq<char>,
)
    requires
        wf(before),
    ensures
        wf(before.session_answer(ticket, result)),
        wf(before.session_refuse(ticket, code, message)),
{
    lemma_outbox(before, before.session_answer(ticket, result));
    lemma_outbox(before, before.session_refuse(ticket, code, message));
}

} // verus!
