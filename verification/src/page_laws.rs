//! What clients learn of the pages: their targets, navigations, titles, consoles
//! and script errors.
use vstd::prelude::*;

use crate::events;
use crate::events::ConsoleMessage;
use crate::events::NavigationStop;
use crate::events::PageError;
use crate::json;
use crate::json::Json;
use crate::model;
use crate::model::Audience;
use crate::model::Pipeline;
use crate::model::State;
use crate::model::Target;
use crate::names;
use crate::observe;
use crate::protocol;
use crate::text;
use crate::value_laws;

verus! {

/// A session gets the page events of a target: it talks to the connection, is
/// attached to the target, and enabled the `Page` domain.
pub open spec fn follows_page(
    state: State,
    connection_id: u64,
    session: Option<Seq<char>>,
    target_id: u64,
) -> bool {
    &&& observe::is_between(state, connection_id, session, target_id)
    &&& state.sessions[session->Some_0].page_enabled
}

/// A session gets the runtime events of a target.
pub open spec fn follows_runtime(
    state: State,
    connection_id: u64,
    session: Option<Seq<char>>,
    target_id: u64,
) -> bool {
    &&& observe::is_between(state, connection_id, session, target_id)
    &&& state.sessions[session->Some_0].runtime_enabled
}

/// A session gets the log entries of a target.
pub open spec fn follows_log(
    state: State,
    connection_id: u64,
    session: Option<Seq<char>>,
    target_id: u64,
) -> bool {
    &&& observe::is_between(state, connection_id, session, target_id)
    &&& state.sessions[session->Some_0].log_enabled
}

/// An object describes a target: its id, its title, its URL, and whether some
/// session is attached to it.
pub open spec fn describes(info: Json, state: State, target_id: u64) -> bool {
    let target = state.targets[target_id];
    &&& observe::part(info, "targetId"@) == Json::Text(target.target_id_string)
    &&& observe::part(info, "type"@) == Json::Text("page"@)
    &&& observe::part(info, "title"@) == Json::Text(target.title)
    &&& observe::part(info, "url"@) == Json::Text(target.url)
    &&& observe::part(info, "canAccessOpener"@) == Json::Bool(false)
    &&& observe::part(info, "browserContextId"@) == Json::Text(state.browser_id)
    &&& observe::part(info, "attached"@) matches Json::Bool(attached) && (attached <==> exists|
        id: Seq<char>,
    |
        state.sessions.contains_key(id) && (#[trigger] state.sessions[id]).target_id == target_id)
}

/// The `TargetInfo` of a target describes it; of one that is not there it is
/// empty.
pub proof fn law_target_info_describes(state: State, target_id: u64)
    ensures
        state.targets.contains_key(target_id) ==> describes(
            state.target_info(target_id),
            state,
            target_id,
        ),
        !state.targets.contains_key(target_id) ==> state.target_info(target_id) == Json::Object(
            Map::empty(),
        ),
        state.target_info(target_id) is Object,
{
    names::lemma_target_names();
}

/// A message is an event that describes a target.
pub open spec fn tells_target(
    message: Json,
    method: Seq<char>,
    state: State,
    target_id: u64,
) -> bool {
    &&& observe::is_event(message, method)
    &&& describes(observe::parameter(message, "targetInfo"@), state, target_id)
}

/// A message is an event about the frame of a target.
pub open spec fn tells_frame(message: Json, method: Seq<char>, target: Target) -> bool {
    &&& observe::is_event(message, method)
    &&& observe::parameter(message, "frameId"@) == Json::Text(target.target_id_string)
}

/// Once a navigation starts the target is loading, and has the URL that was
/// reported and its origin; its title and all else, and the other targets, are
/// as before. The sessions that follow the page learn that the frame started
/// loading, and how the target is described now.
pub proof fn law_navigation_starts(
    before: State,
    target_id: u64,
    url: Seq<char>,
    origin: Seq<char>,
    after: State,
    connection_id: u64,
    session: Option<Seq<char>>,
)
    requires
        events::navigation_start_step(before, target_id, url, origin, after),
    ensures
        !before.targets.contains_key(target_id) ==> after == before,
        before.targets.contains_key(target_id) ==> ({
            let target = after.targets[target_id];
            let new = observe::news(before, after, connection_id, session);
            &&& target == (Target { loading: true, url, origin, ..before.targets[target_id] })
            &&& after == (State {
                targets: before.targets.insert(target_id, target),
                outbox: after.outbox,
                ..before
            })
            &&& observe::extends(before, after)
            &&& if follows_page(before, connection_id, session, target_id) {
                &&& new.len() == 2
                &&& tells_frame(new[0], "Page.frameStartedLoading"@, target)
                &&& tells_target(new[1], "Target.targetInfoChanged"@, after, target_id)
            } else {
                new.len() == 0
            }
        }),
{
    if before.targets.contains_key(target_id) {
        let entered = State {
            targets: before.targets.insert(
                target_id,
                events::loading_started(before.targets[target_id], url, origin),
            ),
            ..before
        };
        let started = choose|started: State| #[trigger]
            events::start_told(entered, target_id, started, after);
        let frame = events::frame_event(
            "Page.frameStartedLoading"@,
            entered.frame_id(target_id),
        );
        let info = model::target_event(
            "Target.targetInfoChanged"@,
            entered.target_info(target_id),
        );
        names::lemma_reply_names();
        law_target_info_describes(entered, target_id);
        observe::lemma_quiet(before, entered, connection_id, session);
        observe::lemma_announced(
            entered,
            target_id,
            Audience::Page,
            frame,
            started,
            connection_id,
            session,
        );
        observe::lemma_announced(
            started,
            target_id,
            Audience::Page,
            info,
            after,
            connection_id,
            session,
        );
        observe::lemma_news_compose(entered, started, after, connection_id, session);
        observe::lemma_news_compose(before, entered, after, connection_id, session);
        if let Some(id) = session {
            observe::lemma_with_session(frame, id);
            observe::lemma_with_session(info, id);
            if follows_page(before, connection_id, session, target_id) {
                assert(observe::parameter(
                    model::with_session(info, id),
                    "targetInfo"@,
                ) == entered.target_info(target_id));
                law_target_info_describes(after, target_id);
                assert(after.target_info(target_id) == entered.target_info(target_id));
            }
        }
    }
}

/// A message says that the frame of a target shows a document.
pub open spec fn tells_document(
    message: Json,
    frame_id: Seq<char>,
    url: Seq<char>,
    origin: Seq<char>,
) -> bool {
    let frame = observe::parameter(message, "frame"@);
    &&& observe::is_event(message, "Page.frameNavigated"@)
    &&& observe::parameter(message, "type"@) == Json::Text("Navigation"@)
    &&& observe::part(frame, "id"@) == Json::Text(frame_id)
    &&& observe::part(frame, "url"@) == Json::Text(url)
    &&& observe::part(frame, "securityOrigin"@) == Json::Text(origin)
    &&& observe::part(frame, "loaderId"@) == Json::Text(""@)
    &&& observe::part(frame, "domainAndRegistry"@) == Json::Text(""@)
    &&& observe::part(frame, "mimeType"@) == Json::Text("text/html"@)
}

/// Once a navigation stops the target has the title, the URL and the origin that
/// the stop reported, shows the pipeline that it reported, and is no longer
/// loading; its id and its web view, and all other targets, are as before. The
/// `TargetInfo` has that title and that URL.
pub proof fn law_navigation_stops(before: State, stop: NavigationStop, after: State)
    requires
        events::navigation_stop_step(before, stop, after),
    ensures
        !before.targets.contains_key(stop.browsing_context_id) ==> after == before,
        before.targets.contains_key(stop.browsing_context_id) ==> ({
            let target_id = stop.browsing_context_id;
            let target = after.targets[target_id];
            let info = after.target_info(target_id);
            &&& after.targets.dom() == before.targets.dom()
            &&& !target.loading
            &&& target.title == stop.page.title@
            &&& target.url == stop.page.url@
            &&& target.origin == stop.page.origin@
            &&& target.current_pipeline == Some(stop.pipeline_id)
            &&& target.target_id_string == before.targets[target_id].target_id_string
            &&& target.webview_id == before.targets[target_id].webview_id
            &&& observe::part(info, "title"@) == Json::Text(stop.page.title@)
            &&& observe::part(info, "url"@) == Json::Text(stop.page.url@)
            &&& forall|other: u64|
                other != target_id && before.targets.contains_key(other)
                    ==> #[trigger] after.targets[other] == before.targets[other]
        }),
{
    names::lemma_target_names();
    if before.targets.contains_key(stop.browsing_context_id) {
        let entered = events::stop_entered(before, stop);
        let (navigated, stopped) = choose|navigated: State, stopped: State| #[trigger]
            events::stop_told(entered, stop, navigated, stopped, after);
        assert(after.targets == entered.targets);
        assert(after.targets.dom() =~= before.targets.dom());
        law_target_info_describes(after, stop.browsing_context_id);
    }
}

/// The pipeline of a stop that is not known yet gets the next execution context
/// id, and is not ready; one that is known is as before. Nothing else but the
/// target changes.
pub proof fn law_navigation_enters_its_pipeline(before: State, stop: NavigationStop, after: State)
    requires
        events::navigation_stop_step(before, stop, after),
        before.targets.contains_key(stop.browsing_context_id),
        before.next_execution_context_id < i64::MAX,
    ensures
        before.pipelines.contains_key(stop.pipeline_id) ==> after.pipelines == before.pipelines
            && after.next_execution_context_id == before.next_execution_context_id,
        !before.pipelines.contains_key(stop.pipeline_id) ==> {
            &&& after.next_execution_context_id == before.next_execution_context_id + 1
            &&& after.pipelines == before.pipelines.insert(
                stop.pipeline_id,
                Pipeline {
                    browsing_context_id: stop.browsing_context_id,
                    execution_context_id: before.next_execution_context_id,
                    label: stop.label@,
                    origin: stop.page.origin@,
                    ready: false,
                },
            )
        },
        after == (State {
            targets: after.targets,
            pipelines: after.pipelines,
            next_execution_context_id: after.next_execution_context_id,
            outbox: after.outbox,
            ..before
        }),
{
    let entered = events::stop_entered(before, stop);
    let (navigated, stopped) = choose|navigated: State, stopped: State| #[trigger]
        events::stop_told(entered, stop, navigated, stopped, after);
}

/// The sessions that follow the page learn, of a navigation that stopped, which
/// document the frame shows, that it stopped loading, and when it was loaded;
/// nobody else learns anything.
pub proof fn law_navigation_stop_is_told(
    before: State,
    stop: NavigationStop,
    after: State,
    connection_id: u64,
    session: Option<Seq<char>>,
)
    requires
        events::navigation_stop_step(before, stop, after),
        before.targets.contains_key(stop.browsing_context_id),
    ensures
        ({
            let target_id = stop.browsing_context_id;
            let target = before.targets[target_id];
            let new = observe::news(before, after, connection_id, session);
            &&& observe::extends(before, after)
            &&& if follows_page(before, connection_id, session, target_id) {
                &&& new.len() == 3
                &&& tells_document(
                    new[0],
                    target.target_id_string,
                    stop.page.url@,
                    stop.page.origin@,
                )
                &&& tells_frame(new[1], "Page.frameStoppedLoading"@, target)
                &&& observe::is_event(new[2], "Page.loadEventFired"@)
                &&& observe::parameter(new[2], "timestamp"@) == json::json_of(stop.time)
            } else {
                new.len() == 0
            }
        }),
{
    let target_id = stop.browsing_context_id;
    let entered = events::stop_entered(before, stop);
    let (navigated, stopped) = choose|navigated: State, stopped: State| #[trigger]
        events::stop_told(entered, stop, navigated, stopped, after);
    names::lemma_reply_names();
    names::lemma_frame_names();
    let frame_id = entered.frame_id(target_id);
    let shown = events::navigated_event(frame_id, stop.page.url@, stop.page.origin@);
    let frame = events::frame_event("Page.frameStoppedLoading"@, frame_id);
    let load = events::load_event(json::json_of(stop.time));
    let page = Audience::Page;
    let c = connection_id;
    observe::lemma_quiet(before, entered, c, session);
    observe::lemma_announced(entered, target_id, page, shown, navigated, c, session);
    observe::lemma_announced(navigated, target_id, page, frame, stopped, c, session);
    observe::lemma_announced(stopped, target_id, page, load, after, c, session);
    observe::lemma_news_compose(navigated, stopped, after, c, session);
    observe::lemma_news_compose(entered, navigated, after, c, session);
    observe::lemma_news_compose(before, entered, after, c, session);
    if let Some(id) = session {
        observe::lemma_with_session(shown, id);
        observe::lemma_with_session(frame, id);
        observe::lemma_with_session(load, id);
    }
}

/// A new title is that of the target of the pipeline, and of no other; nothing
/// else changes. The sessions that follow the page or the runtime learn how the
/// target is described now.
pub proof fn law_title_changes(
    before: State,
    pipeline_id: u64,
    title: Seq<char>,
    after: State,
    connection_id: u64,
    session: Option<Seq<char>>,
)
    requires
        events::title_step(before, pipeline_id, title, after),
    ensures
        ({
            let target_id = before.pipelines[pipeline_id].browsing_context_id;
            let new = observe::news(before, after, connection_id, session);
            if before.pipelines.contains_key(pipeline_id) && before.targets.contains_key(target_id) {
                &&& after == (State {
                    targets: before.targets.insert(
                        target_id,
                        Target { title, ..before.targets[target_id] },
                    ),
                    outbox: after.outbox,
                    ..before
                })
                &&& observe::extends(before, after)
                &&& if follows_page(before, connection_id, session, target_id) || follows_runtime(
                    before,
                    connection_id,
                    session,
                    target_id,
                ) {
                    &&& new.len() == 1
                    &&& tells_target(new[0], "Target.targetInfoChanged"@, after, target_id)
                } else {
                    new.len() == 0
                }
            } else {
                after == before
            }
        }),
{
    let target_id = before.pipelines[pipeline_id].browsing_context_id;
    if before.pipelines.contains_key(pipeline_id) && before.targets.contains_key(target_id) {
        let changed = events::titled(before, target_id, title);
        let info = model::target_event(
            "Target.targetInfoChanged"@,
            changed.target_info(target_id),
        );
        names::lemma_reply_names();
        law_target_info_describes(changed, target_id);
        observe::lemma_announced(
            changed,
            target_id,
            Audience::RuntimeOrPage,
            info,
            after,
            connection_id,
            session,
        );
        if let Some(id) = session {
            observe::lemma_with_session(info, id);
            law_target_info_describes(after, target_id);
            assert(after.target_info(target_id) == changed.target_info(target_id));
        }
    }
}

/// A message shows a console message: its kind, its arguments in order, the
/// execution context it came from, when it came, and the stack.
pub open spec fn tells_call(message: Json, call: ConsoleMessage, execution_context_id: i64) -> bool {
    let args = observe::items(observe::parameter(message, "args"@));
    &&& observe::is_event(message, "Runtime.consoleAPICalled"@)
    &&& observe::parameter(message, "type"@) == Json::Text(protocol::console_type(call.level))
    &&& observe::parameter(message, "executionContextId"@) == Json::Int(
        execution_context_id as int,
    )
    &&& observe::parameter(message, "timestamp"@) == json::json_of(call.seconds)
    &&& observe::parameter(message, "args"@) is Array
    &&& args.len() == call.arguments@.len()
    &&& forall|i: int|
        0 <= i < args.len() ==> #[trigger] args[i] == protocol::remote_object(call.arguments@[i])
    &&& tells_stack(message, call)
}

/// A message has the stack trace of a console message, where it has frames.
pub open spec fn tells_stack(message: Json, call: ConsoleMessage) -> bool {
    match call.stacktrace {
        Some(frames) => if frames@.len() > 0 {
            Some(observe::parameter(message, "stackTrace"@)) == protocol::stack_trace(
                Some(frames@),
            )
        } else {
            !observe::holds(observe::part(message, "params"@), "stackTrace"@)
        },
        None => !observe::holds(observe::part(message, "params"@), "stackTrace"@),
    }
}

/// A message is a log entry.
pub open spec fn tells_entry(
    message: Json,
    source: Seq<char>,
    level: Seq<char>,
    time_stamp: u64,
    url: Seq<char>,
    line_number: u32,
) -> bool {
    &&& observe::is_event(message, "Log.entryAdded"@)
    &&& observe::parameter(message, "source"@) == Json::Text(source)
    &&& observe::parameter(message, "level"@) == Json::Text(level)
    &&& observe::parameter(message, "timestamp"@) == Json::Int(time_stamp as int)
    &&& observe::parameter(message, "url"@) == Json::Text(url)
    &&& observe::parameter(message, "lineNumber"@) matches Json::Int(line)
        && value_laws::counts_from_zero(line, line_number)
}

/// A console message changes nothing. The sessions that follow the runtime of
/// its target get it as a call, and those that follow the log as an entry, whose
/// text has the arguments with spaces between them.
pub proof fn law_console_message_is_told(
    before: State,
    pipeline_id: u64,
    call: ConsoleMessage,
    after: State,
    connection_id: u64,
    session: Option<Seq<char>>,
)
    requires
        events::console_step(before, pipeline_id, call, after),
    ensures
        !before.pipelines.contains_key(pipeline_id) ==> after == before,
        before.pipelines.contains_key(pipeline_id) ==> ({
            let pipeline = before.pipelines[pipeline_id];
            let target_id = pipeline.browsing_context_id;
            let runtime = follows_runtime(before, connection_id, session, target_id);
            let log = follows_log(before, connection_id, session, target_id);
            let new = observe::news(before, after, connection_id, session);
            &&& after == (State { outbox: after.outbox, ..before })
            &&& observe::extends(before, after)
            &&& new.len() == if runtime && log {
                2int
            } else if runtime || log {
                1
            } else {
                0
            }
            &&& runtime ==> tells_call(new[0], call, pipeline.execution_context_id)
            &&& log ==> {
                &&& tells_entry(
                    new.last(),
                    "console-api"@,
                    protocol::console_severity(call.level),
                    call.time_stamp,
                    call.filename@,
                    call.line_number,
                )
                &&& tells_stack(new.last(), call)
                &&& observe::parameter(new.last(), "text"@) == Json::Text(
                    text::joined(
                        Seq::new(
                            call.arguments@.len(),
                            |i: int| protocol::plain_text(call.arguments@[i]),
                        ),
                        " "@,
                    ),
                )
            }
        }),
{
    if before.pipelines.contains_key(pipeline_id) {
        let pipeline = before.pipelines[pipeline_id];
        let target_id = pipeline.browsing_context_id;
        let called = choose|called: State| #[trigger]
            events::console_told(before, pipeline, call, called, after);
        names::lemma_reply_names();
        names::lemma_console_names();
        names::lemma_entry_names();
        let event = events::console_event(call, pipeline.execution_context_id);
        let entry = events::console_entry(call);
        let c = connection_id;
        observe::lemma_announced(before, target_id, Audience::Runtime, event, called, c, session);
        observe::lemma_announced(called, target_id, Audience::Log, entry, after, c, session);
        observe::lemma_news_compose(before, called, after, c, session);
        if let Some(id) = session {
            observe::lemma_with_session(event, id);
            observe::lemma_with_session(entry, id);
        }
        let texts = Seq::new(
            call.arguments@.len(),
            |i: int| protocol::plain_text(call.arguments@[i]),
        );
        assert(call.arguments@.map_values(
            |value: protocol::DebuggerValue| protocol::plain_text(value),
        ) =~= texts);
        assert(observe::part(observe::part(entry, "params"@), "text"@) == Json::Text(
            text::joined(texts, " "@),
        ));
    }
}

/// One more text is put behind the others, with the separator between.
pub proof fn law_texts_are_joined(parts: Seq<Seq<char>>, part: Seq<char>, separator: Seq<char>)
    ensures
        text::joined(Seq::empty(), separator) == Seq::<char>::empty(),
        text::joined(seq![part], separator) == part,
        parts.len() > 0 ==> text::joined(parts.push(part), separator) == text::joined(
            parts,
            separator,
        ) + separator + part,
{
    assert(parts.push(part).drop_last() =~= parts);
    assert(seq![part].drop_last() =~= Seq::empty());
    reveal_with_fuel(text::joined, 2);
}

/// That the console was cleared is told to the sessions that follow the runtime
/// of the target, and changes nothing.
pub proof fn law_cleared_console_is_told(
    before: State,
    pipeline_id: u64,
    after: State,
    connection_id: u64,
    session: Option<Seq<char>>,
)
    requires
        events::clear_console_step(before, pipeline_id, after),
    ensures
        !before.pipelines.contains_key(pipeline_id) ==> after == before,
        before.pipelines.contains_key(pipeline_id) ==> ({
            let target_id = before.pipelines[pipeline_id].browsing_context_id;
            let new = observe::news(before, after, connection_id, session);
            &&& after == (State { outbox: after.outbox, ..before })
            &&& observe::extends(before, after)
            &&& if follows_runtime(before, connection_id, session, target_id) {
                &&& new.len() == 1
                &&& observe::is_event(new[0], "Runtime.consoleCleared"@)
            } else {
                new.len() == 0
            }
        }),
{
    if before.pipelines.contains_key(pipeline_id) {
        let event = protocol::event_json("Runtime.consoleCleared"@, Json::Object(Map::empty()));
        names::lemma_reply_names();
        observe::lemma_announced(
            before,
            before.pipelines[pipeline_id].browsing_context_id,
            Audience::Runtime,
            event,
            after,
            connection_id,
            session,
        );
        if let Some(id) = session {
            observe::lemma_with_session(event, id);
        }
    }
}

/// A script error is told to the sessions that follow the log of the target, and
/// changes nothing.
pub proof fn law_script_error_is_told(
    before: State,
    pipeline_id: u64,
    error: PageError,
    after: State,
    connection_id: u64,
    session: Option<Seq<char>>,
)
    requires
        events::page_error_step(before, pipeline_id, error, after),
    ensures
        !before.pipelines.contains_key(pipeline_id) ==> after == before,
        before.pipelines.contains_key(pipeline_id) ==> ({
            let target_id = before.pipelines[pipeline_id].browsing_context_id;
            let new = observe::news(before, after, connection_id, session);
            &&& after == (State { outbox: after.outbox, ..before })
            &&& observe::extends(before, after)
            &&& if follows_log(before, connection_id, session, target_id) {
                &&& new.len() == 1
                &&& tells_entry(
                    new[0],
                    "javascript"@,
                    "error"@,
                    error.time_stamp,
                    error.source_name@,
                    error.line_number,
                )
                &&& observe::parameter(new[0], "text"@) == Json::Text(error.error_message@)
            } else {
                new.len() == 0
            }
        }),
{
    if before.pipelines.contains_key(pipeline_id) {
        let event = protocol::event_json(
            "Log.entryAdded"@,
            Json::Object(
                events::entry_members(
                    "javascript"@,
                    "error"@,
                    error.error_message@,
                    error.time_stamp,
                    error.source_name@,
                    error.line_number,
                ),
            ),
        );
        names::lemma_reply_names();
        names::lemma_entry_names();
        observe::lemma_announced(
            before,
            before.pipelines[pipeline_id].browsing_context_id,
            Audience::Log,
            event,
            after,
            connection_id,
            session,
        );
        if let Some(id) = session {
            observe::lemma_with_session(event, id);
        }
    }
}

} // verus!
