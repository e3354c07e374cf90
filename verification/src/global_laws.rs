//! What a new script global leads to: a target, a pipeline, and what the clients
//! learn of them.
use vstd::prelude::*;

use crate::browser_laws;
use crate::events;
use crate::events::NewGlobal;
use crate::events::Subscription;
use crate::fxmap;
use crate::invariants;
use crate::json::Json;
use crate::model;
use crate::model::Audience;
use crate::model::Pipeline;
use crate::model::State;
use crate::names;
use crate::observe;
use crate::page_laws;
use crate::session_laws;
use crate::text;

verus! {

/// Sessions come behind those that are there, and the clients are told of them
/// in the new sessions only.
proof fn lemma_attach_each_is_quiet(
    state: State,
    order: Seq<u64>,
    target_id: u64,
    connection_id: u64,
    session: Option<Seq<char>>,
)
    requires
        state.next_session_number + order.len() <= u64::MAX,
        invariants::wf(state),
        session matches Some(id) ==> state.sessions.contains_key(id),
    ensures
        ({
            let after = events::attach_each(state, order, target_id);
            &&& after == (State {
                sessions: after.sessions,
                next_session_number: after.next_session_number,
                outbox: after.outbox,
                ..state
            })
            &&& state.next_session_number <= after.next_session_number
                <= state.next_session_number + order.len()
            &&& observe::extends(state, after)
            &&& observe::news(state, after, connection_id, session).len() == 0
        }),
    decreases order.len(),
{
    if order.len() == 0 {
        observe::lemma_quiet(state, state, connection_id, session);
    } else {
        let front = order.drop_last();
        let middle = events::attach_each(state, front, target_id);
        let after = events::attach_each(state, order, target_id);
        lemma_attach_each_is_quiet(state, front, target_id, connection_id, session);
        browser_laws::law_attaching_creates_one_session(
            middle,
            order.last(),
            target_id,
            connection_id,
            session,
        );
        observe::lemma_news_compose(state, middle, after, connection_id, session);
        if let Some(id) = session {
            let new_id = text::decimal(middle.next_session_number as nat);
            assert(id == text::decimal(state.sessions[id].number as nat));
            if id == new_id {
                text::lemma_decimal_injective(
                    state.sessions[id].number as nat,
                    middle.next_session_number as nat,
                );
            }
        }
        if middle.has_session(order.last(), target_id) {
            observe::lemma_quiet(middle, after, connection_id, session);
        }
    }
}

proof fn lemma_seen_by_each(
    order: Seq<u64>,
    message: Json,
    connection_id: u64,
    session: Option<Seq<char>>,
)
    requires
        order.no_duplicates(),
    ensures
        observe::seen(events::to_each(order, message), connection_id, session)
            == if order.contains(connection_id) && observe::session_in(message) == session {
            seq![message]
        } else {
            Seq::empty()
        },
    decreases order.len(),
{
    let all = events::to_each(order, message);
    if order.len() > 0 {
        let front = order.drop_last();
        let last = order.last();
        assert(all.drop_last() =~= events::to_each(front, message));
        lemma_seen_by_each(front, message, connection_id, session);
        if front.contains(last) {
            let i = choose|i: int| 0 <= i < front.len() && front[i] == last;
            assert(order[i] == order[order.len() - 1]);
        }
        if order.contains(connection_id) && connection_id != last {
            let i = choose|i: int| 0 <= i < order.len() && order[i] == connection_id;
            assert(front[i] == connection_id);
        }
        if front.contains(connection_id) {
            let i = choose|i: int| 0 <= i < front.len() && front[i] == connection_id;
            assert(order[i] == connection_id);
        }
        assert(order[order.len() - 1] == last);
        assert(Seq::<Json>::empty().push(message) =~= seq![message]);
    }
}

/// The pipeline that the target showed before.
pub open spec fn shown_before(before: State, global: NewGlobal) -> Option<u64> {
    if before.targets.contains_key(global.browsing_context_id) {
        before.targets[global.browsing_context_id].current_pipeline
    } else {
        None
    }
}

/// A pipeline is replaced by that of a new global.
pub open spec fn is_replaced(before: State, global: NewGlobal, gone: u64) -> bool {
    &&& shown_before(before, global) == Some(gone)
    &&& gone != global.pipeline_id
    &&& before.pipelines.contains_key(gone)
}

/// A global of a worker changes nothing.
pub proof fn law_worker_changes_nothing(before: State, global: NewGlobal, after: State)
    requires
        events::new_global_step(before, global, after),
        global.is_worker,
    ensures
        after == before,
{
}

/// The target of a new global has the title, the URL and the origin of the
/// document, and shows its pipeline. A target that was known keeps its id, its
/// web view and whether it is loading; a new one is not loading, and has the id
/// that was set aside for its web view, or else the next free one. No other
/// target changes.
pub proof fn law_new_global_enters_its_target(before: State, global: NewGlobal, after: State)
    requires
        events::new_global_step(before, global, after),
        !global.is_worker,
        invariants::wf(before),
        before.room(),
    ensures
        ({
            let target_id = global.browsing_context_id;
            let webview_id = global.webview_id;
            let target = after.targets[target_id];
            let known = before.targets.contains_key(target_id);
            let set_aside = before.pending_targets.contains_key(webview_id);
            &&& after.targets == before.targets.insert(target_id, target)
            &&& target.title == global.page.title@
            &&& target.url == global.page.url@
            &&& target.origin == global.page.origin@
            &&& target.current_pipeline == Some(global.pipeline_id)
            &&& known ==> target.target_id_string == before.targets[target_id].target_id_string
                && target.webview_id == before.targets[target_id].webview_id && target.loading
                == before.targets[target_id].loading
            &&& !known ==> !target.loading && target.webview_id == webview_id
            &&& !known && set_aside ==> target.target_id_string
                == before.pending_targets[webview_id]
            &&& !known && !set_aside ==> target.target_id_string == "page-"@ + text::decimal(
                before.next_target_number as nat,
            )
            &&& after.next_target_number == if known || set_aside {
                before.next_target_number as int
            } else {
                before.next_target_number + 1
            }
            &&& after.pending_targets == before.pending_targets.remove(webview_id)
            &&& after.target_ids == if known {
                before.target_ids
            } else {
                before.target_ids.insert(target.target_id_string, target_id)
            }
            &&& after.pending_create_replies == if !known && set_aside {
                before.pending_create_replies.remove(webview_id)
            } else {
                before.pending_create_replies
            }
        }),
{
    let target_id = global.browsing_context_id;
    let entered = events::global_entered(before, global);
    let (told, destroyed, created) = lemma_global_steps(before, global, after, 0, None);
    assert(after.targets == entered.targets);
    if !before.targets.contains_key(target_id) && before.pending_targets.contains_key(
        global.webview_id,
    ) && !before.pending_create_replies.contains_key(global.webview_id) {
        assert(before.pending_create_replies.remove(global.webview_id)
            =~= before.pending_create_replies);
    }
}

/// The pipeline of a new global is ready, and has the next execution context id
/// and the label and the origin of the global; the pipeline that it replaces is
/// gone, and no other changes. Nothing changes beyond that but the target and
/// the sessions.
pub proof fn law_new_global_enters_its_pipeline(before: State, global: NewGlobal, after: State)
    requires
        events::new_global_step(before, global, after),
        !global.is_worker,
        invariants::wf(before),
        before.room(),
    ensures
        after.next_execution_context_id == before.next_execution_context_id + 1,
        after.pipelines.contains_key(global.pipeline_id),
        after.pipelines[global.pipeline_id] == (Pipeline {
            browsing_context_id: global.browsing_context_id,
            execution_context_id: before.next_execution_context_id,
            label: global.label@,
            origin: global.page.origin@,
            ready: true,
        }),
        forall|id: u64|
            id != global.pipeline_id ==> (#[trigger] after.pipelines.contains_key(id) <==> (
            before.pipelines.contains_key(id) && !is_replaced(before, global, id))),
        forall|id: u64|
            id != global.pipeline_id && after.pipelines.contains_key(id)
                ==> #[trigger] after.pipelines[id] == before.pipelines[id],
        after == (State {
            next_target_number: after.next_target_number,
            next_execution_context_id: after.next_execution_context_id,
            next_session_number: after.next_session_number,
            targets: after.targets,
            target_ids: after.target_ids,
            pending_targets: after.pending_targets,
            pending_create_replies: after.pending_create_replies,
            pipelines: after.pipelines,
            sessions: after.sessions,
            outbox: after.outbox,
            ..before
        }),
{
    let (told, destroyed, created) = lemma_global_steps(before, global, after, 0, None);
    let entered = events::global_entered(before, global);
    assert(after.pipelines == destroyed.pipelines);
    assert(told.pipelines == entered.pipelines);
}

/// The steps of a new global, and what is seen of attaching.
proof fn lemma_global_steps(
    before: State,
    global: NewGlobal,
    after: State,
    connection_id: u64,
    session: Option<Seq<char>>,
) -> (steps: (State, State, State))
    requires
        events::new_global_step(before, global, after),
        !global.is_worker,
        invariants::wf(before),
        before.room(),
        session matches Some(id) ==> before.sessions.contains_key(id),
    ensures
        ({
            let (told, destroyed, created) = steps;
            &&& events::global_told(
                events::global_entered(before, global),
                shown_before(before, global),
                global,
                before.next_execution_context_id,
                told,
                destroyed,
                created,
                after,
            )
            &&& after == (State {
                sessions: after.sessions,
                next_session_number: after.next_session_number,
                outbox: after.outbox,
                ..created
            })
            &&& observe::extends(created, after)
            &&& observe::news(created, after, connection_id, session).len() == 0
        }),
{
    let target_id = global.browsing_context_id;
    let entered = events::global_entered(before, global);
    let previous = events::previous_pipeline(before, target_id);
    let context = before.next_execution_context_id;
    let (told, destroyed, created) = choose|told: State, destroyed: State, created: State| #[trigger]
        events::global_told(entered, previous, global, context, told, destroyed, created, after);
    if previous is None {
        invariants::lemma_global_entered(before, global);
        invariants::lemma_outbox(entered, told);
        invariants::lemma_outbox(told, destroyed);
        invariants::lemma_outbox(destroyed, created);
        let chosen = events::subscribers(created.connections, Subscription::AutoAttach);
        let order = choose|order: Seq<u64>| #[trigger]
            fxmap::lists(order, chosen) && after == events::attach_each(created, order, target_id);
        fxmap::lemma_lists_len(order, chosen);
        assert(chosen.subset_of(created.connections.dom()));
        vstd::set_lib::lemma_len_subset(chosen, created.connections.dom());
        lemma_attach_each_is_quiet(created, order, target_id, connection_id, session);
    } else {
        observe::lemma_quiet(created, after, connection_id, session);
    }
    (told, destroyed, created)
}

/// A session that is there, and follows the runtime of the target, learns that
/// the execution context of the replaced pipeline is gone, and then that of the
/// new one with its origin, its title, its label and the frame; no other session
/// that is there learns anything.
pub proof fn law_new_context_is_told(
    before: State,
    global: NewGlobal,
    after: State,
    connection_id: u64,
    session_id: Seq<char>,
)
    requires
        events::new_global_step(before, global, after),
        !global.is_worker,
        invariants::wf(before),
        before.room(),
        before.sessions.contains_key(session_id),
        forall|id: u64| #[trigger]
            before.pipelines.contains_key(id) && is_replaced(before, global, id)
                ==> before.pipelines[id].browsing_context_id == global.browsing_context_id,
    ensures
        ({
            let target_id = global.browsing_context_id;
            let gone = shown_before(before, global);
            let replaced = gone is Some && is_replaced(before, global, gone->Some_0);
            let new = observe::news(before, after, connection_id, Some(session_id));
            &&& observe::extends(before, after)
            &&& if page_laws::follows_runtime(before, connection_id, Some(session_id), target_id) {
                &&& new.len() == if replaced {
                    2int
                } else {
                    1
                }
                &&& replaced ==> {
                    &&& observe::is_event(new[0], "Runtime.executionContextDestroyed"@)
                    &&& observe::parameter(new[0], "executionContextId"@) == Json::Int(
                        before.pipelines[gone->Some_0].execution_context_id as int,
                    )
                }
                &&& session_laws::introduces(
                    new.last(),
                    before.next_execution_context_id,
                    global.page.origin@,
                    global.page.title@,
                    global.label@,
                    Some(after.targets[target_id].target_id_string),
                )
            } else {
                new.len() == 0
            }
        }),
{
    let target_id = global.browsing_context_id;
    let c = connection_id;
    let session = Some(session_id);
    let (told, destroyed, created) = lemma_global_steps(before, global, after, c, session);
    let entered = events::global_entered(before, global);
    let previous = shown_before(before, global);
    names::lemma_reply_names();
    lemma_entered_news(before, global, c, session);
    lemma_told_news(before, global, entered, told, c, session);
    observe::lemma_news_compose(before, entered, told, c, session);
    let replaced = previous is Some && is_replaced(before, global, previous->Some_0);
    if replaced {
        let gone = previous->Some_0;
        let pipeline = before.pipelines[gone];
        assert(before.pipelines.contains_key(gone));
        assert(told.pipelines[gone] == pipeline);
        let event = events::destroyed_event(pipeline.execution_context_id);
        let without = State { pipelines: told.pipelines.remove(gone), ..told };
        observe::lemma_quiet(told, without, c, session);
        observe::lemma_announced(
            without,
            target_id,
            Audience::Runtime,
            event,
            destroyed,
            c,
            session,
        );
        observe::lemma_news_compose(told, without, destroyed, c, session);
        observe::lemma_with_session(event, session_id);
    } else {
        assert(destroyed == told);
        observe::lemma_quiet(told, destroyed, c, session);
    }
    observe::lemma_news_compose(before, told, destroyed, c, session);
    let frame_id = Some(destroyed.targets[target_id].target_id_string);
    let event = events::created_event(
        before.next_execution_context_id,
        global.page.origin@,
        global.page.title@,
        global.label@,
        frame_id,
    );
    session_laws::lemma_introduces(
        before.next_execution_context_id,
        global.page.origin@,
        global.page.title@,
        global.label@,
        frame_id,
        session_id,
    );
    observe::lemma_announced(destroyed, target_id, Audience::Runtime, event, created, c, session);
    observe::lemma_news_compose(before, destroyed, created, c, session);
    observe::lemma_news_compose(before, created, after, c, session);
}

/// A new global creates a session only with its own target, only where the target
/// is new, and only for a connection that asked for automatic attachment; all
/// sessions that were there stay as they are.
pub proof fn law_new_global_attaches_where_asked(
    before: State,
    global: NewGlobal,
    after: State,
    session_id: Seq<char>,
)
    requires
        events::new_global_step(before, global, after),
        !global.is_worker,
        invariants::wf(before),
        before.room(),
    ensures
        before.sessions.contains_key(session_id) ==> after.sessions.contains_key(session_id)
            && after.sessions[session_id] == before.sessions[session_id],
        after.sessions.contains_key(session_id) && !before.sessions.contains_key(session_id) ==> {
            let session = after.sessions[session_id];
            &&& shown_before(before, global) is None
            &&& session.target_id == global.browsing_context_id
            &&& before.connections.contains_key(session.connection_id)
            &&& before.connections[session.connection_id].auto_attach
        },
{
    let target_id = global.browsing_context_id;
    let (told, destroyed, created) = lemma_global_steps(before, global, after, 0, None);
    if shown_before(before, global) is None {
        let chosen = events::subscribers(created.connections, Subscription::AutoAttach);
        let order = choose|order: Seq<u64>| #[trigger]
            fxmap::lists(order, chosen) && after == events::attach_each(created, order, target_id);
        fxmap::lemma_lists_len(order, chosen);
        assert(chosen.subset_of(created.connections.dom()));
        vstd::set_lib::lemma_len_subset(chosen, created.connections.dom());
        lemma_attach_each_sessions(created, order, target_id, session_id);
        if after.sessions.contains_key(session_id) && !before.sessions.contains_key(session_id) {
            let connection_id = after.sessions[session_id].connection_id;
            assert(order.contains(connection_id));
            assert(chosen.contains(connection_id));
        }
    }
}

proof fn lemma_attach_each_sessions(
    state: State,
    order: Seq<u64>,
    target_id: u64,
    session_id: Seq<char>,
)
    requires
        invariants::sessions_wf(state),
        state.next_session_number + order.len() <= u64::MAX,
    ensures
        ({
            let after = events::attach_each(state, order, target_id);
            &&& state.next_session_number <= after.next_session_number
                <= state.next_session_number + order.len()
            &&& state.sessions.contains_key(session_id) ==> after.sessions.contains_key(session_id)
                && after.sessions[session_id] == state.sessions[session_id]
            &&& after.sessions.contains_key(session_id) && !state.sessions.contains_key(session_id)
                ==> after.sessions[session_id].target_id == target_id && order.contains(
                after.sessions[session_id].connection_id,
            )
        }),
    decreases order.len(),
{
    if order.len() > 0 {
        let front = order.drop_last();
        lemma_attach_each_sessions(state, front, target_id, session_id);
        let middle = events::attach_each(state, front, target_id);
        let new_id = text::decimal(middle.next_session_number as nat);
        assert(order.contains(order[order.len() - 1]));
        if state.sessions.contains_key(session_id) && session_id == new_id {
            text::lemma_decimal_injective(
                state.sessions[session_id].number as nat,
                middle.next_session_number as nat,
            );
        }
        if middle.sessions.contains_key(session_id) && front.contains(
            middle.sessions[session_id].connection_id,
        ) {
            let i = choose|i: int|
                0 <= i < front.len() && front[i] == middle.sessions[session_id].connection_id;
            assert(order[i] == middle.sessions[session_id].connection_id);
        }
    }
}

/// The reply that was held back for the creation of the target.
pub open spec fn held_back(before: State, global: NewGlobal) -> bool {
    &&& !before.targets.contains_key(global.browsing_context_id)
    &&& before.pending_targets.contains_key(global.webview_id)
    &&& before.pending_create_replies.contains_key(global.webview_id)
}

proof fn lemma_entered_news(
    before: State,
    global: NewGlobal,
    connection_id: u64,
    session: Option<Seq<char>>,
)
    ensures
        ({
            let entered = events::global_entered(before, global);
            let new = observe::news(before, entered, connection_id, session);
            let pending = before.pending_create_replies[global.webview_id];
            &&& observe::extends(before, entered)
            &&& if held_back(before, global) && connection_id == pending.connection_id && session
                is None {
                &&& new.len() == 1
                &&& observe::is_reply(
                    new[0],
                    pending.id,
                    Json::Object(
                        map!["targetId"@ => Json::Text(before.pending_targets[global.webview_id])],
                    ),
                )
            } else {
                new.len() == 0
            }
        }),
{
    let entered = events::global_entered(before, global);
    let target_id = global.browsing_context_id;
    if held_back(before, global) {
        let pending = before.pending_create_replies[global.webview_id];
        let result = Json::Object(
            map!["targetId"@ => Json::Text(before.pending_targets[global.webview_id])],
        );
        observe::lemma_answer(
            before,
            pending.connection_id,
            pending.id,
            result,
            connection_id,
            session,
        );
        assert(entered.outbox == before.answer(pending.connection_id, pending.id, result).outbox);
    } else {
        observe::lemma_quiet(before, entered, connection_id, session);
    }
}

proof fn lemma_told_news(
    before: State,
    global: NewGlobal,
    entered: State,
    told: State,
    connection_id: u64,
    session: Option<Seq<char>>,
)
    requires
        entered == events::global_entered(before, global),
        if shown_before(before, global) is None {
            events::discovered(
                entered,
                model::target_event(
                    "Target.targetCreated"@,
                    entered.target_info(global.browsing_context_id),
                ),
                told,
            )
        } else {
            told == entered
        },
    ensures
        told == (State { outbox: told.outbox, ..entered }),
        observe::extends(entered, told),
        ({
            let new = observe::news(entered, told, connection_id, session);
            if shown_before(before, global) is None && session is None
                && before.connections.contains_key(connection_id)
                && before.connections[connection_id].target_discovery {
                &&& new.len() == 1
                &&& page_laws::tells_target(
                    new[0],
                    "Target.targetCreated"@,
                    entered,
                    global.browsing_context_id,
                )
            } else {
                new.len() == 0
            }
        }),
{
    let target_id = global.browsing_context_id;
    if shown_before(before, global) is None {
        let message = model::target_event(
            "Target.targetCreated"@,
            entered.target_info(target_id),
        );
        names::lemma_reply_names();
        page_laws::law_target_info_describes(entered, target_id);
        let chosen = events::subscribers(entered.connections, Subscription::Discovery);
        let order = choose|order: Seq<u64>| #[trigger]
            fxmap::lists(order, chosen) && told == (State {
                outbox: entered.outbox + events::to_each(order, message),
                ..entered
            });
        lemma_seen_by_each(order, message, connection_id, session);
        assert(told.outbox.skip(entered.outbox.len() as int) =~= events::to_each(order, message));
        assert(entered.outbox =~= told.outbox.subrange(0, entered.outbox.len() as int));
        assert(order.contains(connection_id) == chosen.contains(connection_id));
        assert(observe::session_in(message) is None);
    } else {
        observe::lemma_quiet(entered, told, connection_id, session);
    }
}

/// Outside any session a connection learns at most two things of a new global:
/// the id of the target, where the reply to its creation was held back for it;
/// and, where the target is new and the connection asked for target discovery,
/// that it is there. Nobody learns of a target that already showed a document.
pub proof fn law_new_target_is_told(
    before: State,
    global: NewGlobal,
    after: State,
    connection_id: u64,
)
    requires
        events::new_global_step(before, global, after),
        !global.is_worker,
        invariants::wf(before),
        before.room(),
    ensures
        ({
            let target_id = global.browsing_context_id;
            let pending = before.pending_create_replies[global.webview_id];
            let answered = held_back(before, global) && pending.connection_id == connection_id;
            let discovers = shown_before(before, global) is None
                && before.connections.contains_key(connection_id)
                && before.connections[connection_id].target_discovery;
            let new = observe::news(before, after, connection_id, None);
            &&& observe::extends(before, after)
            &&& new.len() == if answered && discovers {
                2int
            } else if answered || discovers {
                1
            } else {
                0
            }
            &&& answered ==> observe::is_reply(
                new[0],
                pending.id,
                Json::Object(
                    map!["targetId"@ => Json::Text(before.pending_targets[global.webview_id])],
                ),
            )
            &&& discovers ==> {
                let info = observe::parameter(new.last(), "targetInfo"@);
                &&& observe::is_event(new.last(), "Target.targetCreated"@)
                &&& observe::part(info, "targetId"@) == Json::Text(
                    after.targets[target_id].target_id_string,
                )
                &&& observe::part(info, "title"@) == Json::Text(global.page.title@)
                &&& observe::part(info, "url"@) == Json::Text(global.page.url@)
                &&& observe::part(info, "type"@) == Json::Text("page"@)
            }
        }),
{
    let target_id = global.browsing_context_id;
    let c = connection_id;
    let session = None::<Seq<char>>;
    let (told, destroyed, created) = lemma_global_steps(before, global, after, c, session);
    let entered = events::global_entered(before, global);
    let previous = shown_before(before, global);
    lemma_entered_news(before, global, c, session);
    lemma_told_news(before, global, entered, told, c, session);
    observe::lemma_news_compose(before, entered, told, c, session);
    if previous is Some && previous->Some_0 != global.pipeline_id && told.pipelines.contains_key(
        previous->Some_0,
    ) {
        let gone = previous->Some_0;
        let pipeline = told.pipelines[gone];
        let event = events::destroyed_event(pipeline.execution_context_id);
        let without = State { pipelines: told.pipelines.remove(gone), ..told };
        observe::lemma_quiet(told, without, c, session);
        observe::lemma_announced(
            without,
            pipeline.browsing_context_id,
            Audience::Runtime,
            event,
            destroyed,
            c,
            session,
        );
        observe::lemma_news_compose(told, without, destroyed, c, session);
    } else {
        observe::lemma_quiet(told, destroyed, c, session);
    }
    observe::lemma_news_compose(before, told, destroyed, c, session);
    let event = events::created_event(
        before.next_execution_context_id,
        global.page.origin@,
        global.page.title@,
        global.label@,
        Some(destroyed.targets[target_id].target_id_string),
    );
    observe::lemma_announced(destroyed, target_id, Audience::Runtime, event, created, c, session);
    observe::lemma_news_compose(before, destroyed, created, c, session);
    observe::lemma_news_compose(before, created, after, c, session);
    assert(after.targets == entered.targets);
}

} // verus!
