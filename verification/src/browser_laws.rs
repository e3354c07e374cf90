//! What the commands to the browser do: what they change, what they are answered,
//! and what they ask of the browser.
use vstd::prelude::*;

use crate::browser;
use crate::discovery;
use crate::fxmap;
use crate::invariants;
use crate::json;
use crate::json::Json;
use crate::laws;
use crate::methods;
use crate::model;
use crate::model::CdpConnection;
use crate::model::CdpSession;
use crate::model::State;
use crate::names;
use crate::observe;
use crate::page_laws;
use crate::protocol;
use crate::requests::Asked;
use crate::server;
use crate::text;

verus! {

/// A command to the browser with an id led from one state to another, and to
/// what is asked of the browser.
pub open spec fn led(
    before: State,
    from: u64,
    id: i64,
    method: Seq<char>,
    params: Json,
    after: State,
    asked: Option<Asked>,
) -> bool {
    exists|user_agent: Seq<char>| #[trigger]
        browser::browser_step(before, from, Some(id), method, params, user_agent, after, asked)
}

/// The only thing that happens is that the command is answered with that result.
pub open spec fn only_reply(
    before: State,
    after: State,
    from: u64,
    id: i64,
    result: Json,
    connection_id: u64,
    session: Option<Seq<char>>,
) -> bool {
    let new = observe::news(before, after, connection_id, session);
    &&& after == (State { outbox: after.outbox, ..before })
    &&& observe::extends(before, after)
    &&& if connection_id == from && session is None {
        new.len() == 1 && observe::is_reply(new[0], id, result)
    } else {
        new.len() == 0
    }
}

/// The only thing that happens is that the command is refused, for that reason.
pub open spec fn only_refusal(
    before: State,
    after: State,
    from: u64,
    id: i64,
    code: int,
    reason: Seq<char>,
    connection_id: u64,
    session: Option<Seq<char>>,
) -> bool {
    let new = observe::news(before, after, connection_id, session);
    &&& after == (State { outbox: after.outbox, ..before })
    &&& observe::extends(before, after)
    &&& if connection_id == from && session is None {
        new.len() == 1 && observe::is_refusal(new[0], id, code, reason)
    } else {
        new.len() == 0
    }
}

proof fn lemma_answered(
    before: State,
    from: u64,
    id: i64,
    result: Json,
    connection_id: u64,
    session: Option<Seq<char>>,
)
    ensures
        only_reply(
            before,
            before.answer(from, id, result),
            from,
            id,
            result,
            connection_id,
            session,
        ),
{
    observe::lemma_answer(before, from, id, result, connection_id, session);
}

proof fn lemma_refused(
    before: State,
    from: u64,
    id: i64,
    code: i64,
    reason: Seq<char>,
    connection_id: u64,
    session: Option<Seq<char>>,
)
    ensures
        only_refusal(
            before,
            before.refuse(from, id, code, reason),
            from,
            id,
            code as int,
            reason,
            connection_id,
            session,
        ),
{
    observe::lemma_refuse(before, from, id, code, reason, connection_id, session);
}

/// The object without members.
pub open spec fn empty() -> Json {
    Json::Object(Map::empty())
}

/// A command without an id does nothing.
pub proof fn law_command_without_an_id_does_nothing(
    before: State,
    from: u64,
    method: Seq<char>,
    params: Json,
    user_agent: Seq<char>,
    after: State,
    asked: Option<Asked>,
)
    requires
        browser::browser_step(before, from, None, method, params, user_agent, after, asked),
    ensures
        after == before,
        asked is None,
{
}

/// The version that the browser reports is the Chromium version of the user
/// agent, and the user agent is reported as it is.
pub proof fn law_version_is_that_of_the_user_agent(
    before: State,
    from: u64,
    id: i64,
    params: Json,
    user_agent: Seq<char>,
    after: State,
    asked: Option<Asked>,
    connection_id: u64,
    session: Option<Seq<char>>,
)
    requires
        browser::browser_step(
            before,
            from,
            Some(id),
            "Browser.getVersion"@,
            params,
            user_agent,
            after,
            asked,
        ),
    ensures
        asked is None,
        exists|result: Json| #[trigger]
            only_reply(before, after, from, id, result, connection_id, session) && {
                let version = discovery::chrome_version(user_agent);
                &&& observe::part(result, "protocolVersion"@) == Json::Text("1.3"@)
                &&& observe::part(result, "product"@) == Json::Text(
                    "Chrome/"@ + (version + ".0.0.0"@),
                )
                &&& observe::part(result, "revision"@) == Json::Text("@"@ + version)
                &&& observe::part(result, "userAgent"@) == Json::Text(user_agent)
                &&& observe::part(result, "jsVersion"@) == Json::Text(version + ".0.0.0"@)
            },
{
    methods::lemma_browser_methods("Browser.getVersion"@);
    names::lemma_version_names();
    let result = browser::version_reply(user_agent);
    lemma_answered(before, from, id, result, connection_id, session);
}

/// Closing or crashing the browser, and exposing the protocol, are answered with
/// an empty object, and change nothing.
pub proof fn law_idle_browser_methods_change_nothing(
    before: State,
    from: u64,
    id: i64,
    method: Seq<char>,
    params: Json,
    after: State,
    asked: Option<Asked>,
    connection_id: u64,
    session: Option<Seq<char>>,
)
    requires
        led(before, from, id, method, params, after, asked),
        method == "Browser.close"@ || method == "Browser.crash"@ || method
            == "Target.exposeDevToolsProtocol"@,
    ensures
        asked is None,
        only_reply(before, after, from, id, empty(), connection_id, session),
{
    methods::lemma_browser_methods(method);
    lemma_answered(before, from, id, empty(), connection_id, session);
}

/// The window and the processes of the browser are reported without being looked
/// at, and nothing changes.
pub proof fn law_window_and_processes_are_reported(
    before: State,
    from: u64,
    id: i64,
    method: Seq<char>,
    params: Json,
    after: State,
    asked: Option<Asked>,
    connection_id: u64,
    session: Option<Seq<char>>,
)
    requires
        led(before, from, id, method, params, after, asked),
        method == "Browser.getWindowForTarget"@ || method == "Browser.getProcessMetrics"@,
    ensures
        asked is None,
        exists|result: Json| #[trigger]
            only_reply(before, after, from, id, result, connection_id, session) && {
                let bounds = observe::part(result, "bounds"@);
                &&& method == "Browser.getProcessMetrics"@ ==> observe::part(
                    result,
                    "processMetrics"@,
                ) == Json::Array(Seq::empty())
                &&& method == "Browser.getWindowForTarget"@ ==> {
                    &&& observe::part(result, "windowId"@) == Json::Int(1)
                    &&& observe::part(bounds, "left"@) == Json::Int(0)
                    &&& observe::part(bounds, "top"@) == Json::Int(0)
                    &&& observe::part(bounds, "width"@) == Json::Int(0)
                    &&& observe::part(bounds, "height"@) == Json::Int(0)
                    &&& observe::part(bounds, "windowState"@) == Json::Text("normal"@)
                }
            },
{
    methods::lemma_browser_methods(method);
    names::lemma_window_names();
    let result = if method == "Browser.getProcessMetrics"@ {
        Json::Object(map!["processMetrics"@ => Json::Array(Seq::empty())])
    } else {
        browser::window_reply()
    };
    assert(browser::browser_command("Browser.getProcessMetrics"@) != browser::browser_command(
        "Browser.getWindowForTarget"@,
    ));
    lemma_answered(before, from, id, result, connection_id, session);
}

/// A method that the browser does not know is refused by name.
pub proof fn law_unknown_browser_methods_are_refused(
    before: State,
    from: u64,
    id: i64,
    method: Seq<char>,
    params: Json,
    after: State,
    asked: Option<Asked>,
    connection_id: u64,
    session: Option<Seq<char>>,
)
    requires
        led(before, from, id, method, params, after, asked),
        !methods::is_browser_method(method),
    ensures
        asked is None,
        only_refusal(
            before,
            after,
            from,
            id,
            -32601,
            "'"@ + method + "' wasn't found"@,
            connection_id,
            session,
        ),
{
    methods::lemma_browser_methods(method);
    lemma_refused(
        before,
        from,
        id,
        protocol::ERROR_METHOD_NOT_FOUND,
        "'"@ + method + "' wasn't found"@,
        connection_id,
        session,
    );
}

/// A list names every target once.
pub open spec fn lists_targets(order: Seq<u64>, state: State) -> bool {
    &&& order.no_duplicates()
    &&& forall|id: u64| #[trigger] order.contains(id) <==> state.targets.contains_key(id)
}

/// Every target is listed once, and described.
pub proof fn law_all_targets_are_listed(
    before: State,
    from: u64,
    id: i64,
    params: Json,
    after: State,
    asked: Option<Asked>,
    connection_id: u64,
    session: Option<Seq<char>>,
)
    requires
        led(before, from, id, "Target.getTargets"@, params, after, asked),
    ensures
        asked is None,
        exists|result: Json, order: Seq<u64>|
            #[trigger] lists_targets(order, before) && #[trigger] only_reply(
                before,
                after,
                from,
                id,
                result,
                connection_id,
                session,
            ) && describes_all(result, order, before),
{
    methods::lemma_browser_methods("Target.getTargets"@);
    let order = choose|order: Seq<u64>| #[trigger]
        fxmap::lists(order, before.targets.dom()) && after == before.answer(
            from,
            id,
            browser::single(
                "targetInfos"@,
                Json::Array(browser::target_infos(before, order)),
            ),
        );
    let result = browser::single(
        "targetInfos"@,
        Json::Array(browser::target_infos(before, order)),
    );
    lemma_answered(before, from, id, result, connection_id, session);
    let infos = observe::items(observe::part(result, "targetInfos"@));
    assert forall|t: u64| #[trigger] order.contains(t) <==> before.targets.contains_key(t) by {
        assert(order.contains(t) == before.targets.dom().contains(t));
    }
    assert forall|i: int| 0 <= i < order.len() implies page_laws::describes(
        #[trigger] infos[i],
        before,
        order[i],
    ) by {
        assert(order.contains(order[i]));
        page_laws::law_target_info_describes(before, order[i]);
        assert(infos[i] == before.target_info(order[i]));
    }
    assert(lists_targets(order, before));
    assert(describes_all(result, order, before));
}

/// A list describes the targets, in that order.
pub open spec fn describes_all(result: Json, order: Seq<u64>, state: State) -> bool {
    let infos = observe::items(observe::part(result, "targetInfos"@));
    &&& infos.len() == order.len()
    &&& forall|i: int|
        0 <= i < infos.len() ==> page_laws::describes(#[trigger] infos[i], state, order[i])
}

/// The parameters name a target that is there.
pub open spec fn names_target(state: State, params: Json, target_id: u64) -> bool {
    &&& state.targets.contains_key(target_id)
    &&& observe::part(params, "targetId"@) == Json::Text(state.targets[target_id].target_id_string)
}

proof fn lemma_named_target(state: State, params: Json, target_id: u64)
    requires
        invariants::wf(state),
    ensures
        browser::named_target(state, params) == Some(target_id) <==> names_target(
            state,
            params,
            target_id,
        ),
{
    if let Some(name) = json::text_member(params, "targetId"@) {
        if state.target_ids.contains_key(name) {
            assert(state.targets.contains_key(state.target_ids[name]));
        }
        if state.targets.contains_key(target_id) {
            assert(state.target_ids.contains_key(state.targets[target_id].target_id_string));
        }
    }
}

/// A target that the parameters name is described; where they name none there is
/// nothing.
pub proof fn law_target_info_is_given(
    before: State,
    from: u64,
    id: i64,
    params: Json,
    after: State,
    asked: Option<Asked>,
    target_id: u64,
    connection_id: u64,
    session: Option<Seq<char>>,
)
    requires
        invariants::wf(before),
        led(before, from, id, "Target.getTargetInfo"@, params, after, asked),
    ensures
        asked is None,
        exists|result: Json| #[trigger]
            only_reply(before, after, from, id, result, connection_id, session) && {
                &&& names_target(before, params, target_id) ==> page_laws::describes(
                    observe::part(result, "targetInfo"@),
                    before,
                    target_id,
                )
                &&& (forall|t: u64| !#[trigger] names_target(before, params, t))
                    ==> observe::part(result, "targetInfo"@) is Null
            },
{
    methods::lemma_browser_methods("Target.getTargetInfo"@);
    lemma_named_target(before, params, target_id);
    page_laws::law_target_info_describes(before, target_id);
    let info = match browser::named_target(before, params) {
        Some(t) => before.target_info(t),
        None => Json::Null,
    };
    if let Some(t) = browser::named_target(before, params) {
        lemma_named_target(before, params, t);
        assert(names_target(before, params, t));
    }
    let result = browser::single("targetInfo"@, info);
    lemma_answered(before, from, id, result, connection_id, session);
}

proof fn lemma_targets_seen(
    state: State,
    from: u64,
    order: Seq<u64>,
    discover: bool,
    connection_id: u64,
    session: Option<Seq<char>>,
)
    requires
        forall|i: int| 0 <= i < order.len() ==> state.targets.contains_key(#[trigger] order[i]),
    ensures
        ({
            let new = observe::seen(
                browser::target_events(state, from, order, discover),
                connection_id,
                session,
            );
            if connection_id == from && session is None {
                &&& new.len() == order.len()
                &&& forall|i: int|
                    0 <= i < order.len() ==> page_laws::tells_target(
                        #[trigger] new[i],
                        if discover {
                            "Target.targetCreated"@
                        } else {
                            "Target.targetRemoved"@
                        },
                        state,
                        order[i],
                    )
            } else {
                new.len() == 0
            }
        }),
    decreases order.len(),
{
    let all = browser::target_events(state, from, order, discover);
    if order.len() > 0 {
        let front = order.drop_last();
        assert(state.targets.contains_key(order[order.len() - 1]));
        assert(all.drop_last() =~= browser::target_events(state, from, front, discover));
        lemma_targets_seen(state, from, front, discover, connection_id, session);
        names::lemma_reply_names();
        page_laws::law_target_info_describes(state, order.last());
        let new = observe::seen(all, connection_id, session);
        let some = observe::seen(all.drop_last(), connection_id, session);
        assert(observe::session_in(all.last().1) is None);
        if connection_id == from && session is None {
            assert forall|i: int| 0 <= i < order.len() implies page_laws::tells_target(
                #[trigger] new[i],
                if discover {
                    "Target.targetCreated"@
                } else {
                    "Target.targetRemoved"@
                },
                state,
                order[i],
            ) by {
                if i < front.len() {
                    assert(some[i] == new[i]);
                    assert(front[i] == order[i]);
                }
            }
        }
    }
}

/// A client that turns target discovery on is told that each target is there, and
/// one that turns it off that each is gone; then it is answered with an empty
/// object. What it asked for is kept with its connection, and nothing else
/// changes.
pub proof fn law_discovery_tells_all_targets(
    before: State,
    from: u64,
    id: i64,
    params: Json,
    after: State,
    asked: Option<Asked>,
    connection_id: u64,
    session: Option<Seq<char>>,
)
    requires
        led(before, from, id, "Target.setDiscoverTargets"@, params, after, asked),
    ensures
        asked is None,
        ({
            let discover = observe::part(params, "discover"@) == Json::Bool(true);
            let new = observe::news(before, after, connection_id, session);
            &&& after == (State {
                connections: if before.connections.contains_key(from) {
                    before.connections.insert(
                        from,
                        CdpConnection { target_discovery: discover, ..before.connections[from] },
                    )
                } else {
                    before.connections
                },
                outbox: after.outbox,
                ..before
            })
            &&& if connection_id == from && session is None {
                &&& new.len() >= 1
                &&& observe::is_reply(new.last(), id, empty())
                &&& exists|order: Seq<u64>| #[trigger]
                    lists_targets(order, before) && new.len() == order.len() + 1 && forall|i: int|
                        0 <= i < order.len() ==> page_laws::tells_target(
                            new[i],
                            if discover {
                                "Target.targetCreated"@
                            } else {
                                "Target.targetRemoved"@
                            },
                            before,
                            #[trigger] order[i],
                        )
            } else {
                new.len() == 0
            }
        }),
{
    methods::lemma_browser_methods("Target.setDiscoverTargets"@);
    let discover = observe::part(params, "discover"@) == Json::Bool(true);
    let set = browser::discovery_set(before, from, discover);
    let order = choose|order: Seq<u64>| #[trigger]
        fxmap::lists(order, before.targets.dom()) && after == (State {
            outbox: set.outbox + browser::target_events(set, from, order, discover),
            ..set
        }).answer(from, id, model::nothing());
    let c = connection_id;
    let events = browser::target_events(set, from, order, discover);
    let told = State { outbox: set.outbox + events, ..set };
    assert forall|t: u64| #[trigger] order.contains(t) <==> before.targets.contains_key(t) by {
        assert(order.contains(t) == before.targets.dom().contains(t));
    }
    assert forall|i: int| 0 <= i < order.len() implies set.targets.contains_key(
        #[trigger] order[i],
    ) by {
        assert(order.contains(order[i]));
    }
    lemma_targets_seen(set, from, order, discover, c, session);
    observe::lemma_quiet(before, set, c, session);
    assert(told.outbox.skip(set.outbox.len() as int) =~= events);
    assert(set.outbox =~= told.outbox.subrange(0, set.outbox.len() as int));
    observe::lemma_answer(told, from, id, empty(), c, session);
    observe::lemma_news_compose(before, set, told, c, session);
    observe::lemma_news_compose(before, told, after, c, session);
    assert(lists_targets(order, before));
    let new = observe::news(before, after, c, session);
    let some = observe::news(set, told, c, session);
    if c == from && session is None {
        assert(new.len() == some.len() + 1);
        assert forall|i: int| 0 <= i < order.len() implies page_laws::tells_target(
            new[i],
            if discover {
                "Target.targetCreated"@
            } else {
                "Target.targetRemoved"@
            },
            before,
            #[trigger] order[i],
        ) by {
            assert(new[i] == some[i]);
            page_laws::law_target_info_describes(set, order[i]);
            page_laws::law_target_info_describes(before, order[i]);
            assert(set.target_info(order[i]) == before.target_info(order[i]));
            let info = observe::parameter(new[i], "targetInfo"@);
            lemma_describes_moves(info, set, before, order[i]);
        }
    }
}

proof fn lemma_describes_moves(info: Json, state: State, other: State, target_id: u64)
    requires
        page_laws::describes(info, state, target_id),
        other.targets == state.targets,
        other.sessions == state.sessions,
        other.browser_id == state.browser_id,
    ensures
        page_laws::describes(info, other, target_id),
{
    assert((exists|id: Seq<char>|
        state.sessions.contains_key(id) && (#[trigger] state.sessions[id]).target_id == target_id)
        == (exists|id: Seq<char>|
        other.sessions.contains_key(id) && (#[trigger] other.sessions[id]).target_id
            == target_id));
}

/// A message introduces a session with a target.
pub open spec fn introduces_session(
    message: Json,
    session_id: Seq<char>,
    state: State,
    target_id: u64,
) -> bool {
    &&& observe::is_event(message, "Target.attachedToTarget"@)
    &&& observe::parameter(message, "sessionId"@) == Json::Text(session_id)
    &&& observe::parameter(message, "waitingForDebugger"@) == Json::Bool(false)
    &&& state.targets.contains_key(target_id) ==> page_laws::describes(
        observe::parameter(message, "targetInfo"@),
        state,
        target_id,
    )
}

/// Attaching a connection to a target that it has no session with creates one
/// session, under the next number, in which every domain is off; the client is
/// told of it in that session, and nobody else is. Where it has a session
/// already nothing happens.
pub proof fn law_attaching_creates_one_session(
    before: State,
    to: u64,
    target_id: u64,
    connection_id: u64,
    session: Option<Seq<char>>,
)
    requires
        before.next_session_number < u64::MAX,
    ensures
        ({
            let after = before.attach(to, target_id);
            let new_id = text::decimal(before.next_session_number as nat);
            let new = observe::news(before, after, connection_id, session);
            &&& observe::extends(before, after)
            &&& if exists|s: Seq<char>|
                before.sessions.contains_key(s) && (#[trigger] before.sessions[s]).connection_id
                    == to && before.sessions[s].target_id == target_id {
                after == before
            } else {
                &&& after == (State {
                    next_session_number: (before.next_session_number + 1) as u64,
                    sessions: before.sessions.insert(
                        new_id,
                        CdpSession {
                            number: before.next_session_number,
                            connection_id: to,
                            target_id,
                            page_enabled: false,
                            runtime_enabled: false,
                            network_enabled: false,
                            log_enabled: false,
                            console_enabled: false,
                            dom_enabled: false,
                        },
                    ),
                    outbox: after.outbox,
                    ..before
                })
                &&& if connection_id == to && session == Some(new_id) {
                    new.len() == 1 && introduces_session(new[0], new_id, before, target_id)
                } else {
                    new.len() == 0
                }
            }
        }),
{
    let after = before.attach(to, target_id);
    if before.has_session(to, target_id) {
        observe::lemma_quiet(before, after, connection_id, session);
    } else {
        let new_id = text::decimal(before.next_session_number as nat);
        let info = before.target_info(target_id);
        names::lemma_reply_names();
        names::lemma_target_names();
        page_laws::law_target_info_describes(before, target_id);
        let message = model::attached_json(new_id, info);
        let event = protocol::event_json(
            "Target.attachedToTarget"@,
            Json::Object(
                map![
                    "sessionId"@ => Json::Text(new_id),
                    "targetInfo"@ => info,
                    "waitingForDebugger"@ => Json::Bool(false),
                ],
            ),
        );
        observe::lemma_with_session(event, new_id);
        observe::lemma_sent(before, after, to, message, connection_id, session);
    }
}

/// Attaching to a target by its id needs the flat session mode, and a target that
/// is there. The reply has the id of the session of the connection that was
/// created last: that of the new session, where there is one.
pub proof fn law_attach_command(
    before: State,
    from: u64,
    id: i64,
    params: Json,
    after: State,
    asked: Option<Asked>,
    target_id: u64,
    connection_id: u64,
    session: Option<Seq<char>>,
)
    requires
        invariants::wf(before),
        before.next_session_number < u64::MAX,
        led(before, from, id, "Target.attachToTarget"@, params, after, asked),
    ensures
        asked is None,
        observe::part(params, "flatten"@) != Json::Bool(true) ==> only_refusal(
            before,
            after,
            from,
            id,
            -32600,
            "only the flat session mode is supported"@,
            connection_id,
            session,
        ),
        observe::part(params, "flatten"@) == Json::Bool(true) && (forall|t: u64|
            !#[trigger] names_target(before, params, t)) ==> only_refusal(
            before,
            after,
            from,
            id,
            -32000,
            "No target with given id found"@,
            connection_id,
            session,
        ),
        observe::part(params, "flatten"@) == Json::Bool(true) && names_target(
            before,
            params,
            target_id,
        ) ==> ({
            let attached = before.attach(from, target_id);
            exists|result: Json, session_id: Seq<char>|
                #![trigger only_reply(attached, after, from, id, result, connection_id, session), attached.sessions[session_id]]
                only_reply(attached, after, from, id, result, connection_id, session)
                    && observe::part(result, "sessionId"@) == Json::Text(session_id)
                    && attached.sessions.contains_key(session_id)
                    && attached.sessions[session_id].connection_id == from && (!before.has_session(
                    from,
                    target_id,
                ) ==> session_id == text::decimal(before.next_session_number as nat)) && forall|
                    other: Seq<char>,
                |
                    attached.sessions.contains_key(other) && (
                    #[trigger] attached.sessions[other]).connection_id == from
                        ==> attached.sessions[other].number <= attached.sessions[session_id].number
        }),
{
    methods::lemma_browser_methods("Target.attachToTarget"@);
    let c = connection_id;
    lemma_refused(
        before,
        from,
        id,
        protocol::ERROR_INVALID_REQUEST,
        "only the flat session mode is supported"@,
        c,
        session,
    );
    lemma_refused(
        before,
        from,
        id,
        protocol::ERROR_SERVER_ERROR,
        "No target with given id found"@,
        c,
        session,
    );
    if observe::part(params, "flatten"@) == Json::Bool(true) {
        lemma_named_target(before, params, target_id);
        if let Some(t) = browser::named_target(before, params) {
            lemma_named_target(before, params, t);
            assert(names_target(before, params, t));
            let attached = before.attach(from, t);
            let own = server::sessions_of(attached, from);
            let session_id = choose|session_id: Seq<char>| #[trigger]
                browser::is_last_session(attached, from, session_id) && after == attached.answer(
                    from,
                    id,
                    browser::single("sessionId"@, Json::Text(session_id)),
                );
            let result = browser::single("sessionId"@, Json::Text(session_id));
            lemma_answered(attached, from, id, result, c, session);
            let some_id = if before.has_session(from, t) {
                choose|s: Seq<char>|
                    before.sessions.contains_key(s) && (#[trigger] before.sessions[s]).connection_id
                        == from && before.sessions[s].target_id == t
            } else {
                text::decimal(before.next_session_number as nat)
            };
            assert(own.contains(some_id));
            assert(own.contains(session_id));
            if !before.has_session(from, t) {
                laws::law_new_session_is_the_last(before, from, t, session_id);
            }
            assert forall|other: Seq<char>|
                attached.sessions.contains_key(other) && (
                #[trigger] attached.sessions[other]).connection_id == from implies
                attached.sessions[other].number <= attached.sessions[session_id].number by {
                assert(own.contains(other));
            }
        }
    }
}

/// Turning automatic attachment on or off is kept with the connection, and
/// answered with an empty object behind all else.
pub proof fn law_auto_attach_is_kept(
    before: State,
    from: u64,
    id: i64,
    params: Json,
    after: State,
    asked: Option<Asked>,
)
    requires
        led(before, from, id, "Target.setAutoAttach"@, params, after, asked),
    ensures
        asked is None,
        ({
            let on = observe::part(params, "autoAttach"@) == Json::Bool(true);
            &&& after == (State {
                connections: if before.connections.contains_key(from) {
                    before.connections.insert(
                        from,
                        CdpConnection { auto_attach: on, ..before.connections[from] },
                    )
                } else {
                    before.connections
                },
                sessions: after.sessions,
                next_session_number: after.next_session_number,
                outbox: after.outbox,
                ..before
            })
            &&& observe::extends(before, after)
            &&& after.outbox.len() > before.outbox.len()
            &&& after.outbox.last().0 == from
            &&& observe::is_reply(after.outbox.last().1, id, empty())
            &&& !on ==> after.sessions == before.sessions && after.outbox.len()
                == before.outbox.len() + 1
        }),
{
    methods::lemma_browser_methods("Target.setAutoAttach"@);
    names::lemma_reply_names();
    let on = observe::part(params, "autoAttach"@) == Json::Bool(true);
    let set = browser::auto_attach_set(before, from, on);
    if on {
        let order = choose|order: Seq<u64>| #[trigger]
            fxmap::lists(order, before.targets.dom()) && after == browser::attach_targets(
                set,
                from,
                order,
            ).answer(from, id, model::nothing());
        lemma_attach_targets(set, from, order);
    }
    assert(before.outbox =~= after.outbox.subrange(0, before.outbox.len() as int));
}

/// Turning automatic attachment on creates sessions for the client and the targets
/// that are there, and keeps all sessions that were there.
pub proof fn law_auto_attach_is_for_the_client(
    before: State,
    from: u64,
    id: i64,
    params: Json,
    after: State,
    asked: Option<Asked>,
    session_id: Seq<char>,
)
    requires
        invariants::wf(before),
        before.room(),
        led(before, from, id, "Target.setAutoAttach"@, params, after, asked),
    ensures
        before.sessions.contains_key(session_id) ==> after.sessions.contains_key(session_id)
            && after.sessions[session_id] == before.sessions[session_id],
        after.sessions.contains_key(session_id) && !before.sessions.contains_key(session_id) ==> {
            &&& after.sessions[session_id].connection_id == from
            &&& before.targets.contains_key(after.sessions[session_id].target_id)
            &&& observe::part(params, "autoAttach"@) == Json::Bool(true)
        },
{
    methods::lemma_browser_methods("Target.setAutoAttach"@);
    let on = observe::part(params, "autoAttach"@) == Json::Bool(true);
    let set = browser::auto_attach_set(before, from, on);
    if on {
        let order = choose|order: Seq<u64>| #[trigger]
            fxmap::lists(order, before.targets.dom()) && after == browser::attach_targets(
                set,
                from,
                order,
            ).answer(from, id, model::nothing());
        fxmap::lemma_lists_len(order, before.targets.dom());
        lemma_attached_sessions(set, from, order, session_id);
        if after.sessions.contains_key(session_id) && !before.sessions.contains_key(session_id) {
            assert(before.targets.dom().contains(after.sessions[session_id].target_id));
        }
    }
}

proof fn lemma_attached_sessions(state: State, to: u64, order: Seq<u64>, session_id: Seq<char>)
    requires
        invariants::sessions_wf(state),
        state.next_session_number + order.len() <= u64::MAX,
    ensures
        ({
            let after = browser::attach_targets(state, to, order);
            &&& state.next_session_number <= after.next_session_number
                <= state.next_session_number + order.len()
            &&& state.sessions.contains_key(session_id) ==> after.sessions.contains_key(session_id)
                && after.sessions[session_id] == state.sessions[session_id]
            &&& after.sessions.contains_key(session_id) && !state.sessions.contains_key(session_id)
                ==> after.sessions[session_id].connection_id == to && order.contains(
                after.sessions[session_id].target_id,
            )
        }),
    decreases order.len(),
{
    if order.len() > 0 {
        let front = order.drop_last();
        lemma_attached_sessions(state, to, front, session_id);
        let middle = browser::attach_targets(state, to, front);
        let after = middle.attach(to, order.last());
        let new_id = text::decimal(middle.next_session_number as nat);
        assert(order.contains(order[order.len() - 1]));
        if state.sessions.contains_key(session_id) && session_id == new_id {
            text::lemma_decimal_injective(
                state.sessions[session_id].number as nat,
                middle.next_session_number as nat,
            );
        }
        if middle.sessions.contains_key(session_id) && front.contains(
            middle.sessions[session_id].target_id,
        ) {
            let i = choose|i: int|
                0 <= i < front.len() && front[i] == middle.sessions[session_id].target_id;
            assert(order[i] == middle.sessions[session_id].target_id);
        }
    }
}

proof fn lemma_attach_targets(state: State, to: u64, order: Seq<u64>)
    ensures
        ({
            let after = browser::attach_targets(state, to, order);
            &&& after == (State {
                sessions: after.sessions,
                next_session_number: after.next_session_number,
                outbox: after.outbox,
                ..state
            })
            &&& observe::extends(state, after)
        }),
    decreases order.len(),
{
    if order.len() > 0 {
        lemma_attach_targets(state, to, order.drop_last());
        let middle = browser::attach_targets(state, to, order.drop_last());
        let after = middle.attach(to, order.last());
        assert(state.outbox =~= after.outbox.subrange(0, state.outbox.len() as int)) by {
            assert(state.outbox =~= middle.outbox.subrange(0, state.outbox.len() as int));
        }
    } else {
        assert(state.outbox =~= state.outbox.subrange(0, state.outbox.len() as int));
    }
}

/// Detaching takes away the session that is named, and no other; it is answered
/// with an empty object.
pub proof fn law_detaching_takes_one_session(
    before: State,
    from: u64,
    id: i64,
    params: Json,
    after: State,
    asked: Option<Asked>,
    connection_id: u64,
    session: Option<Seq<char>>,
)
    requires
        led(before, from, id, "Target.detachFromTarget"@, params, after, asked),
    ensures
        asked is None,
        after.sessions == match observe::part(params, "sessionId"@) {
            Json::Text(session_id) => before.sessions.remove(session_id),
            _ => before.sessions,
        },
        only_reply(
            (State { sessions: after.sessions, ..before }),
            after,
            from,
            id,
            empty(),
            connection_id,
            session,
        ),
{
    methods::lemma_browser_methods("Target.detachFromTarget"@);
    let without = State { sessions: after.sessions, ..before };
    assert(after == without.answer(from, id, empty()));
    lemma_answered(without, from, id, empty(), connection_id, session);
}

/// A new target is asked of the browser, with the URL that is wanted, or an empty
/// page. Nothing is answered yet.
pub proof fn law_new_target_is_asked(
    before: State,
    from: u64,
    id: i64,
    params: Json,
    after: State,
    asked: Option<Asked>,
)
    requires
        led(before, from, id, "Target.createTarget"@, params, after, asked),
    ensures
        after == before,
        asked == Some(
            Asked::CreateTarget {
                connection_id: from,
                id,
                url: match observe::part(params, "url"@) {
                    Json::Text(url) => url,
                    _ => "about:blank"@,
                },
            },
        ),
{
    methods::lemma_browser_methods("Target.createTarget"@);
}

/// The web view belongs to a target with that id.
pub open spec fn has_webview(state: State, name: Seq<char>, webview_id: u64) -> bool {
    exists|t: u64|
        state.targets.contains_key(t) && (#[trigger] state.targets[t]).target_id_string == name
            && state.targets[t].webview_id == webview_id
}

/// No target has that id.
pub open spec fn is_no_target(state: State, name: Seq<char>) -> bool {
    forall|t: u64|
        state.targets.contains_key(t) ==> (#[trigger] state.targets[t]).target_id_string != name
}

/// Closing a target asks for its web view, or for that for which the id is set
/// aside, under the id of the target; one that is not there is refused.
pub proof fn law_closing_is_asked(
    before: State,
    from: u64,
    id: i64,
    params: Json,
    after: State,
    asked: Option<Asked>,
    connection_id: u64,
    session: Option<Seq<char>>,
)
    requires
        led(before, from, id, "Target.closeTarget"@, params, after, asked),
    ensures
        match asked {
            Some(asked) => {
                &&& after == before
                &&& asked matches Asked::CloseTarget {
                    connection_id: c,
                    id: i,
                    target_id,
                    webview_id,
                }
                &&& c == from
                &&& i == id
                &&& observe::part(params, "targetId"@) == Json::Text(target_id)
                &&& has_webview(before, target_id, webview_id) || (is_no_target(before, target_id)
                    && before.pending_targets.contains_key(webview_id)
                    && before.pending_targets[webview_id] == target_id)
            },
            None => {
                &&& only_refusal(
                    before,
                    after,
                    from,
                    id,
                    -32000,
                    "No target with given id found"@,
                    connection_id,
                    session,
                )
                &&& observe::part(params, "targetId"@) matches Json::Text(name) ==> {
                    &&& is_no_target(before, name)
                    &&& forall|w: u64|
                        before.pending_targets.contains_key(w)
                            ==> #[trigger] before.pending_targets[w] != name
                }
            },
        },
{
    methods::lemma_browser_methods("Target.closeTarget"@);
    lemma_refused(
        before,
        from,
        id,
        protocol::ERROR_SERVER_ERROR,
        "No target with given id found"@,
        connection_id,
        session,
    );
    let found = choose|found: Option<u64>| #[trigger]
        browser::close_step(before, from, id, params, found, after, asked);
    if let Some(name) = json::text_member(params, "targetId"@) {
        match found {
            Some(webview_id) => {
                if browser::is_webview_of(before, name, webview_id) {
                    let t = choose|t: u64|
                        before.targets.contains_key(t) && (#[trigger] before.targets[t]).webview_id
                            == webview_id && before.targets[t].target_id_string == name;
                    assert(has_webview(before, name, webview_id));
                }
            },
            None => {},
        }
    }
}

/// Activating a target asks for its web view, and is answered with an empty
/// object; one that is not there is refused.
pub proof fn law_activation_is_asked(
    before: State,
    from: u64,
    id: i64,
    params: Json,
    after: State,
    asked: Option<Asked>,
    connection_id: u64,
    session: Option<Seq<char>>,
)
    requires
        led(before, from, id, "Target.activateTarget"@, params, after, asked),
    ensures
        match asked {
            Some(asked) => {
                &&& asked matches Asked::Focus { webview_id }
                &&& observe::part(params, "targetId"@) matches Json::Text(name) && has_webview(
                    before,
                    name,
                    webview_id,
                )
                &&& only_reply(before, after, from, id, empty(), connection_id, session)
            },
            None => {
                &&& only_refusal(
                    before,
                    after,
                    from,
                    id,
                    -32000,
                    "No target with given id found"@,
                    connection_id,
                    session,
                )
                &&& observe::part(params, "targetId"@) matches Json::Text(name) ==> is_no_target(
                    before,
                    name,
                )
            },
        },
{
    methods::lemma_browser_methods("Target.activateTarget"@);
    lemma_answered(before, from, id, empty(), connection_id, session);
    lemma_refused(
        before,
        from,
        id,
        protocol::ERROR_SERVER_ERROR,
        "No target with given id found"@,
        connection_id,
        session,
    );
    let found = choose|found: Option<u64>| #[trigger]
        browser::activate_step(before, from, id, params, found, after, asked);
    if let Some(name) = json::text_member(params, "targetId"@) {
        match found {
            Some(webview_id) => {
                let t = choose|t: u64|
                    before.targets.contains_key(t) && (#[trigger] before.targets[t]).webview_id
                        == webview_id && before.targets[t].target_id_string == name;
                assert(has_webview(before, name, webview_id));
            },
            None => {},
        }
    }
}

} // verus!
