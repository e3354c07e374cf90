//! Session-scoped commands: the `Page`, `Runtime`, `Network`, `Log`,
//! `Console`, `DOM`, `Emulation`, `Performance` and `Schema` domains.
use serde_json::Value;
use vstd::prelude::*;

use crate::browser;
use crate::encoding;
use crate::events;
use crate::fxmap;
use crate::json;
use crate::json::Json;
use crate::json::Members;
use crate::model;
use crate::model::CdpPipeline;
use crate::model::CdpSession;
use crate::model::Pipeline;
use crate::model::Sent;
use crate::model::State;
use crate::model::Target;
use crate::model::Ticket;
use crate::model::TicketView;
use crate::protocol;
use crate::protocol::CdpError;
use crate::requests;
use crate::requests::Asked;
use crate::requests::Clip;
use crate::requests::ClipView;
use crate::requests::Request;
use crate::requests::ScriptAction;
use crate::server;
use crate::server::CdpServer;
use crate::text;

verus! {

/// The domains that a session can turn on.
#[derive(Clone, Copy, Debug, Eq, PartialEq, Structural)]
pub enum Domain {
    Page,
    Runtime,
    Network,
    Log,
    Console,
    Dom,
}

/// The session-scoped commands.
#[derive(Clone, Copy, Debug, Eq, PartialEq, Structural)]
pub enum SessionCommand {
    Enable(Domain),
    Disable(Domain),
    Navigate,
    Script(ScriptAction),
    GetNavigationHistory,
    GetFrameTree,
    GetResourceTree,
    BringToFront,
    CaptureScreenshot,
    /// A command that is known but refused.
    Unsupported,
    Evaluate,
    RunScript,
    CompileScript,
    CallFunctionOn,
    GetResponseBody,
    GetCookies,
    /// A command that is accepted and has no effect.
    Accept,
    GetDocument,
    RequestChildNodes,
    GetBoxModel,
    GetMessages,
    GetMetrics,
    GetDomains,
    Unknown,
}

/// Methods of the `Emulation` domain that are accepted as no-ops so that
/// clients observe Chrome-like behavior.
pub open spec fn is_emulation_noop(method: Seq<char>) -> bool {
    ||| method == "Emulation.setDeviceMetricsOverride"@
    ||| method == "Emulation.clearDeviceMetricsOverride"@
    ||| method == "Emulation.setUserAgentOverride"@
    ||| method == "Emulation.setEmulatedMedia"@
    ||| method == "Emulation.setTouchEmulationEnabled"@
    ||| method == "Emulation.setScriptExecutionDisabled"@
    ||| method == "Emulation.setScrollbarsHidden"@
    ||| method == "Emulation.setCPUThrottlingRate"@
    ||| method == "Emulation.setAutoDarkModeOverride"@
    ||| method == "Emulation.setLocaleOverride"@
    ||| method == "Emulation.setTimezoneOverride"@
    ||| method == "Emulation.setVirtualTimePolicy"@
    ||| method == "Emulation.setAutomationOverride"@
}

/// Methods that are accepted as no-ops, either because the browser already
/// behaves the way the method asks for or because the behavior cannot be
/// changed at runtime.
pub open spec fn is_session_noop(method: Seq<char>) -> bool {
    ||| method == "Page.setLifecycleEventsEnabled"@
    ||| method == "Page.setBypassCSP"@
    ||| method == "Page.setInterceptFileChooserDialog"@
    ||| method == "Page.setAdBlockingEnabled"@
    ||| method == "Page.setDownloadBehavior"@
    ||| method == "Runtime.setAsyncCallStackDepth"@
    ||| method == "Runtime.setMaxCallStackSizeToCapture"@
    ||| method == "Network.setBypassServiceWorker"@
    ||| method == "Network.setCacheDisabled"@
    ||| method == "Network.setAttachDebugStack"@
    ||| method == "Network.setUserAgentOverride"@
    ||| method == "Network.setAcceptedEncodings"@
    ||| method == "Network.clearAcceptedEncodingsOverride"@
    ||| method == "Network.addInterception"@
    ||| method == "Network.removeInterception"@
    ||| method == "Network.continueInterceptedRequest"@
    ||| method == "Log.startViolationsReport"@
    ||| method == "Log.stopViolationsReport"@
    ||| method == "DOM.setInspectedNode"@
    ||| method == "DOM.discardSearchResults"@
    ||| method == "Performance.setTime"@
    ||| method == "Performance.setTimezone"@
}

/// Methods that are answered without having any effect.
pub open spec fn is_accepted(method: Seq<char>) -> bool {
    ||| method == "Log.disable"@
    ||| method == "Log.clear"@
    ||| method == "Console.disable"@
    ||| method == "Console.clearMessages"@
    ||| method == "Performance.enable"@
    ||| is_emulation_noop(method)
    ||| is_session_noop(method)
}

/// Methods that are known, but refused.
pub open spec fn is_unsupported(method: Seq<char>) -> bool {
    ||| method == "Page.printToPDF"@
    ||| method == "Page.startScreencast"@
    ||| method == "Page.captureSnapshot"@
    ||| method == "Network.setRequestInterception"@
    ||| method == "DOM.resolveNode"@
    ||| method == "DOM.getNodeForLocation"@
}

/// The command that a method names.
pub open spec fn session_command(method: Seq<char>) -> SessionCommand {
    if method == "Page.enable"@ {
        SessionCommand::Enable(Domain::Page)
    } else if method == "Page.disable"@ {
        SessionCommand::Disable(Domain::Page)
    } else if method == "Page.navigate"@ {
        SessionCommand::Navigate
    } else if method == "Page.reload"@ {
        SessionCommand::Script(ScriptAction::Reload)
    } else if method == "Page.goBack"@ {
        SessionCommand::Script(ScriptAction::GoBack)
    } else if method == "Page.goForward"@ {
        SessionCommand::Script(ScriptAction::GoForward)
    } else if method == "Page.getNavigationHistory"@ {
        SessionCommand::GetNavigationHistory
    } else if method == "Page.getFrameTree"@ {
        SessionCommand::GetFrameTree
    } else if method == "Page.getResourceTree"@ {
        SessionCommand::GetResourceTree
    } else if method == "Page.bringToFront"@ {
        SessionCommand::BringToFront
    } else if method == "Page.captureScreenshot"@ {
        SessionCommand::CaptureScreenshot
    } else if method == "Runtime.enable"@ {
        SessionCommand::Enable(Domain::Runtime)
    } else if method == "Runtime.disable"@ {
        SessionCommand::Disable(Domain::Runtime)
    } else if method == "Runtime.evaluate"@ {
        SessionCommand::Evaluate
    } else if method == "Runtime.runScript"@ {
        SessionCommand::RunScript
    } else if method == "Runtime.compileScript"@ {
        SessionCommand::CompileScript
    } else if method == "Runtime.callFunctionOn"@ {
        SessionCommand::CallFunctionOn
    } else if method == "Network.enable"@ {
        SessionCommand::Enable(Domain::Network)
    } else if method == "Network.disable"@ {
        SessionCommand::Disable(Domain::Network)
    } else if method == "Network.getResponseBody"@ {
        SessionCommand::GetResponseBody
    } else if method == "Network.getCookies"@ || method == "Storage.getCookies"@ {
        SessionCommand::GetCookies
    } else if method == "Log.enable"@ {
        SessionCommand::Enable(Domain::Log)
    } else if method == "Console.enable"@ {
        SessionCommand::Enable(Domain::Console)
    } else if method == "DOM.enable"@ {
        SessionCommand::Enable(Domain::Dom)
    } else if method == "DOM.disable"@ {
        SessionCommand::Disable(Domain::Dom)
    } else if method == "DOM.getDocument"@ {
        SessionCommand::GetDocument
    } else if method == "DOM.requestChildNodes"@ {
        SessionCommand::RequestChildNodes
    } else if method == "DOM.getBoxModel"@ {
        SessionCommand::GetBoxModel
    } else if method == "Console.getMessages"@ {
        SessionCommand::GetMessages
    } else if method == "Performance.getMetrics"@ {
        SessionCommand::GetMetrics
    } else if method == "Schema.getDomains"@ {
        SessionCommand::GetDomains
    } else if is_accepted(method) {
        SessionCommand::Accept
    } else if is_unsupported(method) {
        SessionCommand::Unsupported
    } else {
        SessionCommand::Unknown
    }
}

/// Whether a method is answered without having any effect.
fn accepted(method: &str) -> (result: bool)
    ensures
        result == is_accepted(method@),
{
    text::same_text(method, "Log.disable") || text::same_text(method, "Log.clear")
        || text::same_text(method, "Console.disable") || text::same_text(
        method,
        "Console.clearMessages",
    ) || text::same_text(method, "Performance.enable") || emulation_noop(method) || session_noop(
        method,
    )
}

/// Whether a method of the `Emulation` domain is accepted as a no-op.
fn emulation_noop(method: &str) -> (result: bool)
    ensures
        result == is_emulation_noop(method@),
{
    text::same_text(method, "Emulation.setDeviceMetricsOverride") || text::same_text(
        method,
        "Emulation.clearDeviceMetricsOverride",
    ) || text::same_text(method, "Emulation.setUserAgentOverride") || text::same_text(
        method,
        "Emulation.setEmulatedMedia",
    ) || text::same_text(method, "Emulation.setTouchEmulationEnabled") || text::same_text(
        method,
        "Emulation.setScriptExecutionDisabled",
    ) || text::same_text(method, "Emulation.setScrollbarsHidden") || text::same_text(
        method,
        "Emulation.setCPUThrottlingRate",
    ) || text::same_text(method, "Emulation.setAutoDarkModeOverride") || text::same_text(
        method,
        "Emulation.setLocaleOverride",
    ) || text::same_text(method, "Emulation.setTimezoneOverride") || text::same_text(
        method,
        "Emulation.setVirtualTimePolicy",
    ) || text::same_text(method, "Emulation.setAutomationOverride")
}

/// Whether another method is accepted as a no-op.
fn session_noop(method: &str) -> (result: bool)
    ensures
        result == is_session_noop(method@),
{
    text::same_text(method, "Page.setLifecycleEventsEnabled") || text::same_text(
        method,
        "Page.setBypassCSP",
    ) || text::same_text(method, "Page.setInterceptFileChooserDialog") || text::same_text(
        method,
        "Page.setAdBlockingEnabled",
    ) || text::same_text(method, "Page.setDownloadBehavior") || text::same_text(
        method,
        "Runtime.setAsyncCallStackDepth",
    ) || text::same_text(method, "Runtime.setMaxCallStackSizeToCapture") || text::same_text(
        method,
        "Network.setBypassServiceWorker",
    ) || text::same_text(method, "Network.setCacheDisabled") || text::same_text(
        method,
        "Network.setAttachDebugStack",
    ) || text::same_text(method, "Network.setUserAgentOverride") || text::same_text(
        method,
        "Network.setAcceptedEncodings",
    ) || text::same_text(method, "Network.clearAcceptedEncodingsOverride") || text::same_text(
        method,
        "Network.addInterception",
    ) || text::same_text(method, "Network.removeInterception") || text::same_text(
        method,
        "Network.continueInterceptedRequest",
    ) || text::same_text(method, "Log.startViolationsReport") || text::same_text(
        method,
        "Log.stopViolationsReport",
    ) || text::same_text(method, "DOM.setInspectedNode") || text::same_text(
        method,
        "DOM.discardSearchResults",
    ) || text::same_text(method, "Performance.setTime") || text::same_text(
        method,
        "Performance.setTimezone",
    )
}

/// Whether a method is known, but refused.
fn unsupported(method: &str) -> (result: bool)
    ensures
        result == is_unsupported(method@),
{
    text::same_text(method, "Page.printToPDF") || text::same_text(method, "Page.startScreencast")
        || text::same_text(method, "Page.captureSnapshot") || text::same_text(
        method,
        "Network.setRequestInterception",
    ) || text::same_text(method, "DOM.resolveNode") || text::same_text(
        method,
        "DOM.getNodeForLocation",
    )
}

/// The command that a method names.
fn parse_session_command(method: &str) -> (command: SessionCommand)
    ensures
        command == session_command(method@),
{
    if text::same_text(method, "Page.enable") {
        SessionCommand::Enable(Domain::Page)
    } else if text::same_text(method, "Page.disable") {
        SessionCommand::Disable(Domain::Page)
    } else if text::same_text(method, "Page.navigate") {
        SessionCommand::Navigate
    } else if text::same_text(method, "Page.reload") {
        SessionCommand::Script(ScriptAction::Reload)
    } else if text::same_text(method, "Page.goBack") {
        SessionCommand::Script(ScriptAction::GoBack)
    } else if text::same_text(method, "Page.goForward") {
        SessionCommand::Script(ScriptAction::GoForward)
    } else if text::same_text(method, "Page.getNavigationHistory") {
        SessionCommand::GetNavigationHistory
    } else if text::same_text(method, "Page.getFrameTree") {
        SessionCommand::GetFrameTree
    } else if text::same_text(method, "Page.getResourceTree") {
        SessionCommand::GetResourceTree
    } else if text::same_text(method, "Page.bringToFront") {
        SessionCommand::BringToFront
    } else if text::same_text(method, "Page.captureScreenshot") {
        SessionCommand::CaptureScreenshot
    } else if text::same_text(method, "Runtime.enable") {
        SessionCommand::Enable(Domain::Runtime)
    } else if text::same_text(method, "Runtime.disable") {
        SessionCommand::Disable(Domain::Runtime)
    } else if text::same_text(method, "Runtime.evaluate") {
        SessionCommand::Evaluate
    } else if text::same_text(method, "Runtime.runScript") {
        SessionCommand::RunScript
    } else if text::same_text(method, "Runtime.compileScript") {
        SessionCommand::CompileScript
    } else if text::same_text(method, "Runtime.callFunctionOn") {
        SessionCommand::CallFunctionOn
    } else if text::same_text(method, "Network.enable") {
        SessionCommand::Enable(Domain::Network)
    } else if text::same_text(method, "Network.disable") {
        SessionCommand::Disable(Domain::Network)
    } else if text::same_text(method, "Network.getResponseBody") {
        SessionCommand::GetResponseBody
    } else if text::same_text(method, "Network.getCookies") || text::same_text(
        method,
        "Storage.getCookies",
    ) {
        SessionCommand::GetCookies
    } else if text::same_text(method, "Log.enable") {
        SessionCommand::Enable(Domain::Log)
    } else if text::same_text(method, "Console.enable") {
        SessionCommand::Enable(Domain::Console)
    } else if text::same_text(method, "DOM.enable") {
        SessionCommand::Enable(Domain::Dom)
    } else if text::same_text(method, "DOM.disable") {
        SessionCommand::Disable(Domain::Dom)
    } else if text::same_text(method, "DOM.getDocument") {
        SessionCommand::GetDocument
    } else if text::same_text(method, "DOM.requestChildNodes") {
        SessionCommand::RequestChildNodes
    } else if text::same_text(method, "DOM.getBoxModel") {
        SessionCommand::GetBoxModel
    } else if text::same_text(method, "Console.getMessages") {
        SessionCommand::GetMessages
    } else if text::same_text(method, "Performance.getMetrics") {
        SessionCommand::GetMetrics
    } else if text::same_text(method, "Schema.getDomains") {
        SessionCommand::GetDomains
    } else if accepted(method) {
        SessionCommand::Accept
    } else if unsupported(method) {
        SessionCommand::Unsupported
    } else {
        SessionCommand::Unknown
    }
}

/// A session turns a domain on or off.
pub open spec fn turned(session: CdpSession, domain: Domain, on: bool) -> CdpSession {
    match domain {
        Domain::Page => CdpSession { page_enabled: on, ..session },
        Domain::Runtime => CdpSession { runtime_enabled: on, ..session },
        Domain::Network => CdpSession { network_enabled: on, ..session },
        Domain::Log => CdpSession { log_enabled: on, ..session },
        Domain::Console => CdpSession { console_enabled: on, ..session },
        Domain::Dom => CdpSession { dom_enabled: on, ..session },
    }
}

/// A session has turned a domain on or off, and the command is answered.
pub open spec fn domain_turned(
    state: State,
    ticket: TicketView,
    domain: Domain,
    on: bool,
) -> State {
    State {
        sessions: state.sessions.insert(
            ticket.session_id,
            turned(state.sessions[ticket.session_id], domain, on),
        ),
        ..state
    }.session_answer(ticket, model::nothing())
}

/// A session is told the current state of its page: the document, and whether
/// it is being loaded.
pub open spec fn page_state_told(state: State, ticket: TicketView, target_id: u64) -> State {
    if state.targets.contains_key(target_id) {
        let target = state.targets[target_id];
        let told = state.send(
            ticket.connection_id,
            model::with_session(
                events::navigated_event(target.target_id_string, target.url, "about:blank"@),
                ticket.session_id,
            ),
        );
        if target.loading {
            told.send(
                ticket.connection_id,
                model::with_session(
                    events::frame_event("Page.frameStartedLoading"@, target.target_id_string),
                    ticket.session_id,
                ),
            )
        } else {
            told
        }
    } else {
        state
    }
}

/// The pipelines of a target.
pub open spec fn pipelines_of(pipelines: Map<u64, Pipeline>, target_id: u64) -> Set<u64> {
    Set::new(
        |id: u64| pipelines.contains_key(id) && pipelines[id].browsing_context_id == target_id,
    )
}

/// The events that introduce execution contexts to a session.
pub open spec fn context_events(
    state: State,
    ticket: TicketView,
    order: Seq<u64>,
) -> Seq<Sent> {
    order.map_values(
        |id: u64|
            (
                ticket.connection_id,
                model::with_session(
                    events::created_event(
                        state.pipelines[id].execution_context_id,
                        state.pipelines[id].origin,
                        Seq::empty(),
                        state.pipelines[id].label,
                        None,
                    ),
                    ticket.session_id,
                ),
            ),
    )
}

/// A session is told of every execution context of its target, in some order.
pub open spec fn contexts_told(
    before: State,
    ticket: TicketView,
    target_id: u64,
    after: State,
) -> bool {
    exists|order: Seq<u64>| #[trigger]
        fxmap::lists(order, pipelines_of(before.pipelines, target_id)) && after == (State {
            outbox: before.outbox + context_events(before, ticket, order),
            ..before
        })
}

/// What turning a domain on leads to.
pub open spec fn enable_step(
    before: State,
    ticket: TicketView,
    target_id: u64,
    domain: Domain,
    after: State,
) -> bool {
    let on = domain_turned(before, ticket, domain, true);
    match domain {
        Domain::Page => after == page_state_told(on, ticket, target_id),
        Domain::Runtime => contexts_told(on, ticket, target_id, after),
        _ => after == on,
    }
}

/// A pipeline is there and has a channel to its script thread.
pub open spec fn is_ready(state: State, pipeline_id: u64) -> bool {
    state.pipelines.contains_key(pipeline_id) && state.pipelines[pipeline_id].ready
}

/// The current pipeline of a target, or why it cannot be told anything.
pub open spec fn script_pipeline(state: State, target_id: u64) -> Result<u64, Seq<char>> {
    if !state.targets.contains_key(target_id) {
        Err("Target not found"@)
    } else {
        match state.targets[target_id].current_pipeline {
            Some(pipeline_id) => if is_ready(state, pipeline_id) {
                Ok(pipeline_id)
            } else {
                Err("Target is not ready for evaluation"@)
            },
            None => Err("Target has no execution context"@),
        }
    }
}

/// A command failed.
pub open spec fn failed(state: State, ticket: TicketView, message: Seq<char>) -> State {
    state.session_refuse(ticket, protocol::ERROR_SERVER_ERROR, message)
}

/// A command has parameters that it does not take.
pub open spec fn rejected(state: State, ticket: TicketView, message: Seq<char>) -> State {
    state.session_refuse(ticket, protocol::ERROR_INVALID_REQUEST, message)
}

/// What a command to a script thread leads to.
pub open spec fn script_step(
    before: State,
    ticket: TicketView,
    target_id: u64,
    action: ScriptAction,
) -> (State, Option<Asked>) {
    match script_pipeline(before, target_id) {
        Ok(pipeline_id) => (before, Some(Asked::Script { ticket, pipeline_id, action })),
        Err(message) => (failed(before, ticket, message), None),
    }
}

/// What `Page.navigate` leads to.
pub open spec fn navigate_step(
    before: State,
    ticket: TicketView,
    target_id: u64,
    params: Json,
) -> (State, Option<Asked>) {
    match json::text_member(params, "url"@) {
        Some(url) => (
            before,
            Some(
                Asked::Navigate {
                    ticket,
                    frame_id: before.frame_id(target_id),
                    url,
                    pipeline: script_pipeline(before, target_id),
                },
            ),
        ),
        None => (rejected(before, ticket, "'url' parameter is required"@), None),
    }
}

/// The reply to `Page.getNavigationHistory`.
pub open spec fn history_reply(url: Seq<char>, title: Seq<char>) -> Json {
    Json::Object(
        map![
            "index"@ => Json::Int(0),
            "entries"@ => Json::Array(
                seq![
                    Json::Object(
                        map![
                            "id"@ => Json::Int(1),
                            "url"@ => Json::Text(url),
                            "title"@ => Json::Text(title),
                            "userTypedURL"@ => Json::Text(url),
                        ],
                    ),
                ],
            ),
        ],
    )
}

/// The reply to `Page.getNavigationHistory`.
pub open spec fn target_history(state: State, target_id: u64) -> Json {
    if state.targets.contains_key(target_id) {
        history_reply(state.targets[target_id].url, state.targets[target_id].title)
    } else {
        history_reply(Seq::empty(), Seq::empty())
    }
}

/// The reply that shows the frame of a target, with an empty list beside it.
pub open spec fn tree_reply(target: Target, list: Seq<char>) -> Json {
    browser::single(
        "frameTree"@,
        Json::Object(
            map![
                "frame"@ => Json::Object(
                    map![
                        "id"@ => Json::Text(target.target_id_string),
                        "loaderId"@ => Json::Text(""@),
                        "url"@ => Json::Text(target.url),
                        "mimeType"@ => Json::Text("text/html"@),
                        "securityOrigin"@ => Json::Text(target.origin),
                    ],
                ),
                list => Json::Array(Seq::empty()),
            ],
        ),
    )
}

/// What showing the frame of a target leads to.
pub open spec fn tree_step(
    before: State,
    ticket: TicketView,
    target_id: u64,
    list: Seq<char>,
) -> State {
    if before.targets.contains_key(target_id) {
        before.session_answer(ticket, tree_reply(before.targets[target_id], list))
    } else {
        failed(before, ticket, "Target not found"@)
    }
}

/// What `Page.bringToFront` leads to.
pub open spec fn front_step(before: State, ticket: TicketView, target_id: u64) -> (
    State,
    Option<Asked>,
) {
    if before.targets.contains_key(target_id) {
        (
            before.session_answer(ticket, model::nothing()),
            Some(Asked::Focus { webview_id: before.targets[target_id].webview_id }),
        )
    } else {
        (failed(before, ticket, "Target not found"@), None)
    }
}

/// The number under `key`, if there is one.
pub open spec fn number_member(json: Json, key: Seq<char>) -> Option<Json> {
    match json::member(json, key) {
        Some(item) => if item is Int || item is Float {
            Some(item)
        } else {
            None
        },
        None => None,
    }
}

/// The rectangle that a value describes, where it has all four numbers.
pub open spec fn clip_in(clip: Json) -> Option<ClipView> {
    match (
        number_member(clip, "x"@),
        number_member(clip, "y"@),
        number_member(clip, "width"@),
        number_member(clip, "height"@),
    ) {
        (Some(x), Some(y), Some(width), Some(height)) => Some(ClipView { x, y, width, height }),
        _ => None,
    }
}

/// The rectangle that the optional `clip` parameter gives.
pub open spec fn requested_clip(params: Json) -> Option<ClipView> {
    match json::member(params, "clip"@) {
        Some(clip) => clip_in(clip),
        None => None,
    }
}

/// What `Page.captureScreenshot` leads to.
pub open spec fn screenshot_step(
    before: State,
    ticket: TicketView,
    target_id: u64,
    params: Json,
) -> (State, Option<Asked>) {
    if before.targets.contains_key(target_id) {
        (
            before,
            Some(
                Asked::Screenshot {
                    ticket,
                    webview_id: before.targets[target_id].webview_id,
                    clip: requested_clip(params),
                },
            ),
        )
    } else {
        (failed(before, ticket, "Target not found"@), None)
    }
}

/// What evaluating an expression in a pipeline leads to.
pub open spec fn evaluate_in(
    before: State,
    ticket: TicketView,
    pipeline_id: u64,
    expression: Seq<char>,
) -> (State, Option<Asked>) {
    if is_ready(before, pipeline_id) {
        (before, Some(Asked::Evaluate { ticket, pipeline_id, expression }))
    } else {
        (failed(before, ticket, "Target is not ready for evaluation"@), None)
    }
}

/// What evaluating an expression, if there is one, leads to.
pub open spec fn evaluate_step(
    before: State,
    ticket: TicketView,
    target_id: u64,
    expression: Option<Seq<char>>,
) -> (State, Option<Asked>) {
    match expression {
        Some(expression) => match events::previous_pipeline(before, target_id) {
            Some(pipeline_id) => evaluate_in(before, ticket, pipeline_id, expression),
            None => (failed(before, ticket, "Target has no execution context"@), None),
        },
        None => (rejected(before, ticket, "'expression' parameter is required"@), None),
    }
}

/// The source that `Runtime.runScript` runs: script persistence is not
/// supported, so it is evaluated right away.
pub open spec fn script_source(params: Json) -> Option<Seq<char>> {
    match json::text_member(params, "source"@) {
        Some(source) => Some(source),
        None => json::text_member(params, "expression"@),
    }
}

/// A call argument as a JavaScript literal.
pub open spec fn js_source(value: Json) -> Seq<char> {
    match value {
        Json::Null => "null"@,
        Json::Bool(truth) => if truth {
            "true"@
        } else {
            "false"@
        },
        _ => json::json_text(value),
    }
}

/// The call arguments as JavaScript literals.
pub open spec fn call_arguments(params: Json) -> Seq<Seq<char>> {
    match json::member(params, "arguments"@) {
        Some(Json::Array(items)) => items.map_values(|item: Json| js_source(item)),
        _ => Seq::empty(),
    }
}

/// The expression that applies a function to the call arguments.
pub open spec fn call_expression(function: Seq<char>, params: Json) -> Seq<char> {
    "("@ + function + ").apply(undefined, ["@ + text::joined(call_arguments(params), ", "@) + "])"@
}

/// The pipeline has the execution context.
pub open spec fn has_context(state: State, execution_context_id: i64, pipeline_id: u64) -> bool {
    state.pipelines.contains_key(pipeline_id) && state.pipelines[pipeline_id].execution_context_id
        == execution_context_id
}

/// The pipeline of an execution context was found, or there is none.
pub open spec fn context_found(
    state: State,
    execution_context_id: i64,
    found: Option<u64>,
) -> bool {
    match found {
        Some(pipeline_id) => has_context(state, execution_context_id, pipeline_id),
        None => forall|pipeline_id: u64| !has_context(state, execution_context_id, pipeline_id),
    }
}

/// What calling a function leads to, once the pipeline of the execution context
/// is found.
pub open spec fn call_in(
    before: State,
    ticket: TicketView,
    function: Seq<char>,
    params: Json,
    found: Option<u64>,
) -> (State, Option<Asked>) {
    match found {
        Some(pipeline_id) => evaluate_in(
            before,
            ticket,
            pipeline_id,
            call_expression(function, params),
        ),
        None => (failed(before, ticket, "Cannot find execution context with given id"@), None),
    }
}

/// What `Runtime.callFunctionOn` leads to. Only the execution-context flavor is
/// supported: remote objects cannot be addressed because they are not kept
/// alive.
pub open spec fn call_step(
    before: State,
    ticket: TicketView,
    params: Json,
    after: State,
    asked: Option<Asked>,
) -> bool {
    match json::text_member(params, "functionDeclaration"@) {
        Some(function) => match json::int_member(params, "executionContextId"@) {
            Some(execution_context_id) => exists|found: Option<u64>| #[trigger]
                context_found(before, execution_context_id, found) && (after, asked) == call_in(
                    before,
                    ticket,
                    function,
                    params,
                    found,
                ),
            None => (after, asked) == (
                failed(
                    before,
                    ticket,
                    "Runtime.callFunctionOn only supports the 'executionContextId' flavor"@,
                ),
                None::<Asked>,
            ),
        },
        None => (after, asked) == (
            rejected(before, ticket, "'functionDeclaration' parameter is required"@),
            None::<Asked>,
        ),
    }
}

/// A response of the MIME type is text.
pub open spec fn is_text(mime_type: Seq<char>) -> bool {
    let essence = text::before(mime_type, ';');
    ||| text::begins_with(mime_type, "text/"@)
    ||| essence == "application/json"@
    ||| essence == "application/javascript"@
    ||| essence == "application/xml"@
    ||| essence == "application/xhtml+xml"@
    ||| essence == "image/svg+xml"@
    ||| essence == "application/x-www-form-urlencoded"@
}

/// The reply with a response body, given its text or its base64.
pub open spec fn encoded_reply(encoded: Seq<char>, base64_encoded: bool) -> Json {
    Json::Object(
        map![
            "body"@ => Json::Text(encoded),
            "base64Encoded"@ => Json::Bool(base64_encoded),
        ],
    )
}

/// The reply with a response body: as it is where it is text, else in base64.
pub open spec fn body_reply(body: Seq<u8>, mime_type: Seq<char>) -> Json {
    if is_text(mime_type) {
        encoded_reply(text::decoded_text(body), false)
    } else {
        encoded_reply(encoding::base64_text(body), true)
    }
}

/// What `Network.getResponseBody` leads to.
pub open spec fn body_step(before: State, ticket: TicketView, params: Json) -> State {
    match json::text_member(params, "requestId"@) {
        Some(request_id) => if before.network_requests.contains_key(request_id) {
            let request = before.network_requests[request_id];
            match request.body {
                Some(body) => before.session_answer(ticket, body_reply(body, request.mime_type)),
                None => failed(before, ticket, "Response body is not available"@),
            }
        } else {
            failed(before, ticket, "Request not found"@)
        },
        None => rejected(before, ticket, "'requestId' parameter is required"@),
    }
}

/// The depth that the optional `depth` parameter gives.
pub open spec fn requested_depth(params: Json) -> i64 {
    match json::int_member(params, "depth"@) {
        Some(depth) => depth,
        None => 1,
    }
}

/// What `DOM.getDocument` leads to.
pub open spec fn document_step(
    before: State,
    ticket: TicketView,
    target_id: u64,
    params: Json,
) -> (State, Option<Asked>) {
    if !before.targets.contains_key(target_id) {
        (failed(before, ticket, "Target not found"@), None)
    } else {
        match before.targets[target_id].current_pipeline {
            Some(pipeline_id) => if is_ready(before, pipeline_id) {
                (
                    before,
                    Some(
                        Asked::GetDocument {
                            ticket,
                            pipeline_id,
                            depth: requested_depth(params) as i32,
                        },
                    ),
                )
            } else {
                (failed(before, ticket, "Target is not ready"@), None)
            },
            None => (failed(before, ticket, "Target has no execution context"@), None),
        }
    }
}

/// The event that gives a session the children of a node.
pub open spec fn children_event(node_id: i64, children: Seq<Json>) -> Json {
    protocol::event_json(
        "DOM.setChildNodes"@,
        Json::Object(
            map![
                "parentId"@ => Json::Int(node_id as int),
                "nodes"@ => Json::Array(children),
            ],
        ),
    )
}

/// A session is given the children of a node, and the command is answered.
pub open spec fn children_given(
    state: State,
    ticket: TicketView,
    node_id: i64,
    children: Seq<Json>,
) -> State {
    state.send(
        ticket.connection_id,
        model::with_session(children_event(node_id, children), ticket.session_id),
    ).session_answer(ticket, model::nothing())
}

/// The larger of a depth and one.
pub open spec fn at_least_one(depth: i64) -> i64 {
    if depth < 1 {
        1
    } else {
        depth
    }
}

/// What `DOM.requestChildNodes` leads to. A node whose pipeline is not ready is
/// shown without children.
pub open spec fn children_step(before: State, ticket: TicketView, params: Json) -> (
    State,
    Option<Asked>,
) {
    match json::int_member(params, "nodeId"@) {
        Some(node_id) => if before.dom_nodes.contains_key(node_id) {
            let node = before.dom_nodes[node_id];
            if is_ready(before, node.pipeline_id) {
                (
                    before,
                    Some(
                        Asked::GetChildren {
                            ticket,
                            node_id,
                            pipeline_id: node.pipeline_id,
                            unique_id: node.unique_id,
                            depth: at_least_one(requested_depth(params)) as i32,
                        },
                    ),
                )
            } else {
                (children_given(before, ticket, node_id, Seq::empty()), None)
            }
        } else {
            (failed(before, ticket, "Could not find node with given id"@), None)
        },
        None => (rejected(before, ticket, "'nodeId' parameter is required"@), None),
    }
}

/// What `DOM.getBoxModel` leads to.
pub open spec fn layout_step(before: State, ticket: TicketView, params: Json) -> (
    State,
    Option<Asked>,
) {
    match json::int_member(params, "nodeId"@) {
        Some(node_id) => if before.dom_nodes.contains_key(node_id) {
            let node = before.dom_nodes[node_id];
            if is_ready(before, node.pipeline_id) {
                (
                    before,
                    Some(
                        Asked::GetLayout {
                            ticket,
                            pipeline_id: node.pipeline_id,
                            unique_id: node.unique_id,
                        },
                    ),
                )
            } else {
                (failed(before, ticket, "Target is not ready"@), None)
            }
        } else {
            (failed(before, ticket, "Could not find node with given id"@), None)
        },
        None => (rejected(before, ticket, "'nodeId' parameter is required"@), None),
    }
}

/// The message for a method that is refused.
pub open spec fn unsupported_text(method: Seq<char>) -> Seq<char> {
    method + " is not supported by Servo"@
}

/// The reply to `Performance.getMetrics`.
pub open spec fn metrics_reply(now: Json) -> Json {
    browser::single(
        "metrics"@,
        Json::Array(
            seq![
                Json::Object(
                    map!["name"@ => Json::Text("Timestamp"@), "value"@ => now],
                ),
            ],
        ),
    )
}

/// What a command of a session leads to.
pub open spec fn command_step(
    before: State,
    ticket: TicketView,
    method: Seq<char>,
    params: Json,
    now: Json,
    after: State,
    asked: Option<Asked>,
) -> bool {
    let target_id = before.sessions[ticket.session_id].target_id;
    let nobody = None::<Asked>;
    match session_command(method) {
        SessionCommand::Enable(domain) => {
            &&& enable_step(before, ticket, target_id, domain, after)
            &&& asked is None
        },
        SessionCommand::Disable(domain) => (after, asked) == (
            domain_turned(before, ticket, domain, false),
            nobody,
        ),
        SessionCommand::Navigate => (after, asked) == navigate_step(
            before,
            ticket,
            target_id,
            params,
        ),
        SessionCommand::Script(action) => (after, asked) == script_step(
            before,
            ticket,
            target_id,
            action,
        ),
        SessionCommand::GetNavigationHistory => (after, asked) == (
            before.session_answer(ticket, target_history(before, target_id)),
            nobody,
        ),
        SessionCommand::GetFrameTree => (after, asked) == (
            tree_step(before, ticket, target_id, "childFrames"@),
            nobody,
        ),
        SessionCommand::GetResourceTree => (after, asked) == (
            tree_step(before, ticket, target_id, "resources"@),
            nobody,
        ),
        SessionCommand::BringToFront => (after, asked) == front_step(before, ticket, target_id),
        SessionCommand::CaptureScreenshot => (after, asked) == screenshot_step(
            before,
            ticket,
            target_id,
            params,
        ),
        SessionCommand::Unsupported => (after, asked) == (
            failed(before, ticket, unsupported_text(method)),
            nobody,
        ),
        SessionCommand::Evaluate => (after, asked) == evaluate_step(
            before,
            ticket,
            target_id,
            json::text_member(params, "expression"@),
        ),
        SessionCommand::RunScript => (after, asked) == evaluate_step(
            before,
            ticket,
            target_id,
            script_source(params),
        ),
        SessionCommand::CompileScript => (after, asked) == (
            before.session_answer(ticket, browser::single("scriptId"@, Json::Text("0"@))),
            nobody,
        ),
        SessionCommand::CallFunctionOn => call_step(before, ticket, params, after, asked),
        SessionCommand::GetResponseBody => (after, asked) == (
            body_step(before, ticket, params),
            nobody,
        ),
        SessionCommand::GetCookies => (after, asked) == (
            before.session_answer(ticket, browser::single("cookies"@, Json::Array(Seq::empty()))),
            nobody,
        ),
        SessionCommand::Accept => (after, asked) == (
            before.session_answer(ticket, model::nothing()),
            nobody,
        ),
        SessionCommand::GetDocument => (after, asked) == document_step(
            before,
            ticket,
            target_id,
            params,
        ),
        SessionCommand::RequestChildNodes => (after, asked) == children_step(
            before,
            ticket,
            params,
        ),
        SessionCommand::GetBoxModel => (after, asked) == layout_step(before, ticket, params),
        SessionCommand::GetMessages => (after, asked) == (
            before.session_answer(ticket, browser::single("messages"@, Json::Array(Seq::empty()))),
            nobody,
        ),
        SessionCommand::GetMetrics => (after, asked) == (
            before.session_answer(ticket, metrics_reply(now)),
            nobody,
        ),
        SessionCommand::GetDomains => (after, asked) == (
            before.session_answer(ticket, browser::single("domains"@, Json::Array(Seq::empty()))),
            nobody,
        ),
        SessionCommand::Unknown => (after, asked) == (
            before.session_refuse(
                ticket,
                protocol::ERROR_METHOD_NOT_FOUND,
                protocol::not_found_text(method),
            ),
            nobody,
        ),
    }
}

/// The session exists and belongs to the connection.
pub open spec fn is_own_session(state: State, ticket: TicketView) -> bool {
    state.sessions.contains_key(ticket.session_id)
        && state.sessions[ticket.session_id].connection_id == ticket.connection_id
}

/// What a session-scoped command leads to. A session that does not exist, or
/// belongs to another connection, is not found. The `Target` domain is valid
/// inside sessions as well.
pub open spec fn session_step(
    before: State,
    ticket: TicketView,
    method: Seq<char>,
    params: Json,
    user_agent: Seq<char>,
    now: Json,
    after: State,
    asked: Option<Asked>,
) -> bool {
    if !is_own_session(before, ticket) {
        &&& after == match ticket.id {
            Some(id) => before.refuse(
                ticket.connection_id,
                id,
                protocol::ERROR_SERVER_ERROR,
                "Session not found"@,
            ),
            None => before,
        }
        &&& asked is None
    } else if text::begins_with(method, "Target."@) {
        browser::browser_step(
            before,
            ticket.connection_id,
            ticket.id,
            method,
            params,
            user_agent,
            after,
            asked,
        )
    } else {
        command_step(before, ticket, method, params, now, after, asked)
    }
}

/// The number under `key`, if there is one.
fn get_number<'a>(value: &'a Value, key: &str) -> (number: Option<&'a Value>)
    ensures
        match number {
            Some(n) => number_member(json::json_of(*value), key@) == Some(json::json_of(*n)),
            None => number_member(json::json_of(*value), key@) is None,
        },
{
    match json::get_member(value, key) {
        Some(item) => if item.is_number() {
            Some(item)
        } else {
            None
        },
        None => None,
    }
}

/// The rectangle that the optional `clip` parameter gives.
fn get_clip(params: &Value) -> (clip: Option<Clip>)
    ensures
        requests::clip_view(clip) == requested_clip(json::json_of(*params)),
{
    let Some(clip) = json::get_member(params, "clip") else {
        return None;
    };
    match (
        get_number(clip, "x"),
        get_number(clip, "y"),
        get_number(clip, "width"),
        get_number(clip, "height"),
    ) {
        (Some(x), Some(y), Some(width), Some(height)) => Some(
            Clip { x: x.clone(), y: y.clone(), width: width.clone(), height: height.clone() },
        ),
        _ => None,
    }
}

/// Serializes a call argument into a JavaScript literal that can be spliced
/// into an evaluated expression.
pub fn cdp_value_to_js_source(value: &Value) -> (source: String)
    ensures
        source@ == js_source(json::json_of(*value)),
{
    if value.is_null() {
        return "null".to_string();
    }
    match value.as_bool() {
        Some(true) => "true".to_string(),
        Some(false) => "false".to_string(),
        None => json::value_text(value),
    }
}

/// The call arguments as JavaScript literals.
fn call_arguments_js(params: &Value) -> (arguments: Vec<String>)
    ensures
        text::texts(arguments@) == call_arguments(json::json_of(*params)),
{
    let mut arguments: Vec<String> = Vec::new();
    let items = match json::get_member(params, "arguments") {
        Some(item) => item.as_array(),
        None => None,
    };
    let ghost all = call_arguments(json::json_of(*params));
    let Some(items) = items else {
        assert(text::texts(arguments@) =~= all);
        return arguments;
    };
    assert(all =~= items@.map_values(|item: Value| js_source(json::json_of(item))));
    let mut i: usize = 0;
    assert(text::texts(arguments@) =~= all.take(0));
    while i < items.len()
        invariant
            i <= items@.len(),
            all == items@.map_values(|item: Value| js_source(json::json_of(item))),
            text::texts(arguments@) == all.take(i as int),
        decreases items@.len() - i,
    {
        let ghost done = arguments@;
        arguments.push(cdp_value_to_js_source(&items[i]));
        assert(text::texts(arguments@) =~= text::texts(done).push(all[i as int]));
        i += 1;
        assert(all.take(i as int) =~= all.take(i - 1).push(all[i - 1]));
    }
    assert(all.take(i as int) =~= all);
    arguments
}

/// The expression that applies a function to the call arguments.
fn call_expression_js(function: &str, params: &Value) -> (expression: String)
    ensures
        expression@ == call_expression(function@, json::json_of(*params)),
{
    let arguments = call_arguments_js(params);
    let mut expression = "(".to_string();
    expression.push_str(function);
    expression.push_str(").apply(undefined, [");
    expression.push_str(text::join(&arguments, ", ").as_str());
    expression.push_str("])");
    assert(expression@ =~= call_expression(function@, json::json_of(*params)));
    expression
}

/// Whether a response of the MIME type is text.
fn is_text_type(mime_type: &str) -> (result: bool)
    ensures
        result == is_text(mime_type@),
{
    let essence = text::text_before(mime_type, ';');
    let essence = essence.as_str();
    text::has_prefix(mime_type, "text/") || text::same_text(essence, "application/json")
        || text::same_text(essence, "application/javascript") || text::same_text(
        essence,
        "application/xml",
    ) || text::same_text(essence, "application/xhtml+xml") || text::same_text(
        essence,
        "image/svg+xml",
    ) || text::same_text(essence, "application/x-www-form-urlencoded")
}

/// Builds the reply with a response body, given its text or its base64.
pub fn encoded_body_reply(encoded: &str, base64_encoded: bool) -> (value: Value)
    ensures
        json::json_of(value) == encoded_reply(encoded@, base64_encoded),
{
    Members::new().with("body", json::string(encoded)).with(
        "base64Encoded",
        json::boolean(base64_encoded),
    ).value()
}

/// Builds the reply with a response body.
fn body_reply_json(body: &Vec<u8>, mime_type: &str) -> (value: Value)
    ensures
        json::json_of(value) == body_reply(body@, mime_type@),
{
    if is_text_type(mime_type) {
        encoded_body_reply(text::decode_text(body.as_slice()).as_str(), false)
    } else {
        encoded_body_reply(encoding::base64(body.as_slice()).as_str(), true)
    }
}

/// The depth that the optional `depth` parameter gives.
fn get_depth(params: &Value) -> (depth: i64)
    ensures
        depth == requested_depth(json::json_of(*params)),
{
    match json::get_int(params, "depth") {
        Some(depth) => depth,
        None => 1,
    }
}

/// The list without items.
fn no_items() -> (value: Value)
    ensures
        json::json_of(value) == Json::Array(Seq::empty()),
{
    let none: Vec<Value> = Vec::new();
    assert(json::jsons(none@) =~= Seq::empty());
    json::array(none)
}

/// The list of one item.
fn one_item(item: Value) -> (value: Value)
    ensures
        json::json_of(value) == Json::Array(seq![json::json_of(item)]),
{
    let mut items: Vec<Value> = Vec::new();
    items.push(item);
    assert(json::jsons(items@) =~= seq![json::json_of(item)]);
    json::array(items)
}

impl CdpServer {
    /// Turns a domain on or off for a session, and answers.
    fn turn_domain(&mut self, ticket: &Ticket, domain: Domain, on: bool)
        requires
            old(self)@.sessions.contains_key(ticket@.session_id),
        ensures
            final(self)@ == domain_turned(old(self)@, ticket@, domain, on),
    {
        if let Some(session) = fxmap::fx_get(&self.sessions, &ticket.session_id) {
            let mut session = *session;
            match domain {
                Domain::Page => {
                    session.page_enabled = on;
                },
                Domain::Runtime => {
                    session.runtime_enabled = on;
                },
                Domain::Network => {
                    session.network_enabled = on;
                },
                Domain::Log => {
                    session.log_enabled = on;
                },
                Domain::Console => {
                    session.console_enabled = on;
                },
                Domain::Dom => {
                    session.dom_enabled = on;
                },
            }
            fxmap::fx_insert(&mut self.sessions, ticket.session_id.clone(), session);
        }
        self.send_session_reply(ticket, server::nothing());
    }

    /// Emits the current `Page` state (frame + loading flag) of the target of
    /// a session right after `Page.enable`, like Chromium does.
    fn emit_page_state(&mut self, ticket: &Ticket, target_id: u64)
        ensures
            final(self)@ == page_state_told(old(self)@, ticket@, target_id),
    {
        let Some(target) = fxmap::fx_get(&self.targets, &target_id) else {
            return;
        };
        let frame_id = target.target_id_string.clone();
        let url = target.url.clone();
        let loading = target.loading;
        let navigated = events::navigated_event_json(frame_id.as_str(), url.as_str(), "about:blank");
        self.send_to_connection(
            ticket.connection_id,
            server::with_session(navigated, ticket.session_id.as_str()),
        );
        if loading {
            let started = events::frame_event_json("Page.frameStartedLoading", frame_id.as_str());
            self.send_to_connection(
                ticket.connection_id,
                server::with_session(started, ticket.session_id.as_str()),
            );
        }
    }

    /// The pipelines of a target.
    fn target_pipelines(&self, target_id: u64) -> (ids: Vec<u64>)
        ensures
            fxmap::lists(ids@, pipelines_of(self@.pipelines, target_id)),
    {
        let ghost wanted = |pipeline: Pipeline| pipeline.browsing_context_id == target_id;
        let holds = |pipeline: &CdpPipeline| -> (result: bool)
            ensures
                result == (pipeline@.browsing_context_id == target_id),
        {
            pipeline.browsing_context_id == target_id
        };
        let ids = fxmap::fx_keys_where(&self.pipelines, holds, Ghost(wanted));
        assert(fxmap::selected(self@.pipelines, wanted) =~= pipelines_of(
            self@.pipelines,
            target_id,
        ));
        assert(fxmap::views(ids@) =~= ids@);
        ids
    }

    /// Emits `Runtime.executionContextCreated` for every known pipeline of
    /// the target of a session right after `Runtime.enable`.
    fn emit_execution_contexts(&mut self, ticket: &Ticket, target_id: u64)
        ensures
            contexts_told(old(self)@, ticket@, target_id, final(self)@),
    {
        let ids = self.target_pipelines(target_id);
        let ghost before = self@;
        let mut i: usize = 0;
        assert(before.outbox + context_events(before, ticket@, ids@.take(0)) =~= before.outbox);
        while i < ids.len()
            invariant
                i <= ids@.len(),
                fxmap::lists(ids@, pipelines_of(before.pipelines, target_id)),
                self@ == (State {
                    outbox: before.outbox + context_events(before, ticket@, ids@.take(i as int)),
                    ..before
                }),
            decreases ids@.len() - i,
        {
            assert(ids@.contains(ids@[i as int]));
            if let Some(pipeline) = fxmap::fx_get(&self.pipelines, &ids[i]) {
                let none = String::new();
                assert(none@ =~= Seq::empty());
                let created = events::execution_context_created(
                    pipeline.execution_context_id,
                    pipeline.origin.as_str(),
                    none.as_str(),
                    pipeline.label.as_str(),
                    None,
                );
                self.send_to_connection(
                    ticket.connection_id,
                    server::with_session(created, ticket.session_id.as_str()),
                );
            }
            i += 1;
            assert(before.outbox + context_events(before, ticket@, ids@.take(i as int))
                =~= (before.outbox + context_events(before, ticket@, ids@.take(i - 1))).push(
                context_events(before, ticket@, ids@)[i - 1],
            ));
        }
        assert(ids@.take(i as int) =~= ids@);
    }

    /// Whether a pipeline is there and has a channel to its script thread.
    fn pipeline_is_ready(&self, pipeline_id: u64) -> (ready: bool)
        ensures
            ready == is_ready(self@, pipeline_id),
    {
        match fxmap::fx_get(&self.pipelines, &pipeline_id) {
            Some(pipeline) => pipeline.ready,
            None => false,
        }
    }

    /// The current pipeline of a target, or why it cannot be told anything.
    fn script_of_target(&self, target_id: u64) -> (result: Result<u64, String>)
        ensures
            requests::pipeline_view(result) == script_pipeline(self@, target_id),
    {
        let Some(target) = fxmap::fx_get(&self.targets, &target_id) else {
            return Err("Target not found".to_string());
        };
        let Some(pipeline_id) = target.current_pipeline else {
            return Err("Target has no execution context".to_string());
        };
        if self.pipeline_is_ready(pipeline_id) {
            Ok(pipeline_id)
        } else {
            Err("Target is not ready for evaluation".to_string())
        }
    }

    /// Implements `Page.navigate`.
    fn page_navigate(&mut self, ticket: Ticket, target_id: u64, params: &Value) -> (request: Option<
        Request,
    >)
        ensures
            (final(self)@, requests::asked(request)) == navigate_step(
                old(self)@,
                ticket@,
                target_id,
                json::json_of(*params),
            ),
    {
        let Some(url) = json::get_text(params, "url") else {
            self.send_session_error(
                &ticket,
                CdpError::invalid_params("'url' parameter is required"),
            );
            return None;
        };
        let frame_id = match fxmap::fx_get(&self.targets, &target_id) {
            Some(target) => target.target_id_string.clone(),
            None => String::new(),
        };
        assert(frame_id@ =~= self@.frame_id(target_id));
        let pipeline = self.script_of_target(target_id);
        Some(Request::Navigate { ticket, frame_id, url: url.to_string(), pipeline })
    }

    /// Tells the script thread of a target.
    fn send_to_script_of_target(
        &mut self,
        ticket: Ticket,
        target_id: u64,
        action: ScriptAction,
    ) -> (request: Option<Request>)
        ensures
            (final(self)@, requests::asked(request)) == script_step(
                old(self)@,
                ticket@,
                target_id,
                action,
            ),
    {
        match self.script_of_target(target_id) {
            Ok(pipeline_id) => Some(Request::Script { ticket, pipeline_id, action }),
            Err(message) => {
                self.send_session_error(&ticket, CdpError::server(message.as_str()));
                None
            },
        }
    }

    /// Answers `Page.getNavigationHistory`.
    fn page_get_navigation_history(&mut self, ticket: &Ticket, target_id: u64)
        ensures
            final(self)@ == old(self)@.session_answer(
                ticket@,
                target_history(old(self)@, target_id),
            ),
    {
        let (url, title) = match fxmap::fx_get(&self.targets, &target_id) {
            Some(target) => (target.url.clone(), target.title.clone()),
            None => (String::new(), String::new()),
        };
        proof {
            if !self@.targets.contains_key(target_id) {
                assert(url@ =~= Seq::empty());
                assert(title@ =~= Seq::empty());
            }
        }
        let entry = Members::new().with("id", json::integer(1)).with(
            "url",
            json::string(url.as_str()),
        ).with("title", json::string(title.as_str())).with(
            "userTypedURL",
            json::string(url.as_str()),
        ).value();
        let reply = Members::new().with("index", json::integer(0)).with(
            "entries",
            one_item(entry),
        ).value();
        self.send_session_reply(ticket, reply);
    }

    /// Shows the frame of a target, with an empty list beside it.
    fn page_get_tree(&mut self, ticket: &Ticket, target_id: u64, list: &str)
        ensures
            final(self)@ == tree_step(old(self)@, ticket@, target_id, list@),
    {
        let Some(target) = fxmap::fx_get(&self.targets, &target_id) else {
            self.send_session_error(ticket, CdpError::server("Target not found"));
            return;
        };
        let frame = Members::new().with("id", json::string(target.target_id_string.as_str())).with(
            "loaderId",
            json::string(""),
        ).with("url", json::string(target.url.as_str())).with(
            "mimeType",
            json::string("text/html"),
        ).with("securityOrigin", json::string(target.origin.as_str())).value();
        let tree = Members::new().with("frame", frame).with(list, no_items()).value();
        self.send_session_reply(ticket, browser::single_json("frameTree", tree));
    }

    /// Implements `Page.bringToFront`.
    fn page_bring_to_front(&mut self, ticket: &Ticket, target_id: u64) -> (request: Option<Request>)
        ensures
            (final(self)@, requests::asked(request)) == front_step(old(self)@, ticket@, target_id),
    {
        let Some(target) = fxmap::fx_get(&self.targets, &target_id) else {
            self.send_session_error(ticket, CdpError::server("Target not found"));
            return None;
        };
        let webview_id = target.webview_id;
        self.send_session_reply(ticket, server::nothing());
        Some(Request::Focus { webview_id })
    }

    /// Implements `Page.captureScreenshot`.
    fn page_capture_screenshot(&mut self, ticket: Ticket, target_id: u64, params: &Value) -> (request:
        Option<Request>)
        ensures
            (final(self)@, requests::asked(request)) == screenshot_step(
                old(self)@,
                ticket@,
                target_id,
                json::json_of(*params),
            ),
    {
        let Some(target) = fxmap::fx_get(&self.targets, &target_id) else {
            self.send_session_error(&ticket, CdpError::server("Target not found"));
            return None;
        };
        let webview_id = target.webview_id;
        // The optional `clip` parameter is a rect in CSS pixels.
        Some(Request::Screenshot { ticket, webview_id, clip: get_clip(params) })
    }

    /// Evaluates an expression in the given pipeline.
    fn runtime_evaluate_in_pipeline(
        &mut self,
        ticket: Ticket,
        pipeline_id: u64,
        expression: &str,
    ) -> (request: Option<Request>)
        ensures
            (final(self)@, requests::asked(request)) == evaluate_in(
                old(self)@,
                ticket@,
                pipeline_id,
                expression@,
            ),
    {
        if self.pipeline_is_ready(pipeline_id) {
            Some(Request::Evaluate { ticket, pipeline_id, expression: expression.to_string() })
        } else {
            self.send_session_error(
                &ticket,
                CdpError::server("Target is not ready for evaluation"),
            );
            None
        }
    }

    /// Implements `Runtime.evaluate` by delegating to the script thread.
    fn runtime_evaluate(
        &mut self,
        ticket: Ticket,
        target_id: u64,
        expression: Option<&str>,
    ) -> (request: Option<Request>)
        ensures
            (final(self)@, requests::asked(request)) == evaluate_step(
                old(self)@,
                ticket@,
                target_id,
                protocol::optional_text(expression),
            ),
    {
        let Some(expression) = expression else {
            self.send_session_error(
                &ticket,
                CdpError::invalid_params("'expression' parameter is required"),
            );
            return None;
        };
        let pipeline = match fxmap::fx_get(&self.targets, &target_id) {
            Some(target) => target.current_pipeline,
            None => None,
        };
        let Some(pipeline_id) = pipeline else {
            self.send_session_error(&ticket, CdpError::server("Target has no execution context"));
            return None;
        };
        self.runtime_evaluate_in_pipeline(ticket, pipeline_id, expression)
    }

    /// The pipeline of an execution context.
    fn find_context(&self, execution_context_id: i64) -> (found: Option<u64>)
        ensures
            context_found(self@, execution_context_id, found),
    {
        let keys = fxmap::fx_keys(&self.pipelines);
        assert(fxmap::views(keys@) =~= keys@);
        let mut i: usize = 0;
        while i < keys.len()
            invariant
                i <= keys@.len(),
                fxmap::lists(keys@, self@.pipelines.dom()),
                forall|j: int|
                    0 <= j < i ==> !has_context(self@, execution_context_id, #[trigger] keys@[j]),
            decreases keys@.len() - i,
        {
            assert(keys@.contains(keys@[i as int]));
            if let Some(pipeline) = fxmap::fx_get(&self.pipelines, &keys[i]) {
                if pipeline.execution_context_id == execution_context_id {
                    return Some(keys[i]);
                }
            }
            i += 1;
        }
        proof {
            assert forall|pipeline_id: u64| !has_context(
                self@,
                execution_context_id,
                pipeline_id,
            ) by {
                if has_context(self@, execution_context_id, pipeline_id) {
                    assert(keys@.contains(pipeline_id));
                    let j = choose|j: int| 0 <= j < keys@.len() && keys@[j] == pipeline_id;
                    assert(keys@[j] == pipeline_id);
                }
            }
        }
        None
    }

    /// Implements `Runtime.callFunctionOn` for functions called in an
    /// execution context: the function declaration is applied to the
    /// JSON-serialized arguments and evaluated in the context.
    fn runtime_call_function_on(&mut self, ticket: Ticket, params: &Value) -> (request: Option<
        Request,
    >)
        ensures
            call_step(
                old(self)@,
                ticket@,
                json::json_of(*params),
                final(self)@,
                requests::asked(request),
            ),
    {
        let Some(function) = json::get_text(params, "functionDeclaration") else {
            self.send_session_error(
                &ticket,
                CdpError::invalid_params("'functionDeclaration' parameter is required"),
            );
            return None;
        };
        // Only the execution-context flavor is supported: remote objects
        // cannot be addressed because they are not kept alive.
        let Some(execution_context_id) = json::get_int(params, "executionContextId") else {
            self.send_session_error(
                &ticket,
                CdpError::server(
                    "Runtime.callFunctionOn only supports the 'executionContextId' flavor",
                ),
            );
            return None;
        };
        let found = self.find_context(execution_context_id);
        let Some(pipeline_id) = found else {
            self.send_session_error(
                &ticket,
                CdpError::server("Cannot find execution context with given id"),
            );
            return None;
        };
        let expression = call_expression_js(function, params);
        self.runtime_evaluate_in_pipeline(ticket, pipeline_id, expression.as_str())
    }

    /// Implements `Network.getResponseBody` from the response bodies that the
    /// fetch layer captured.
    fn network_get_response_body(&mut self, ticket: &Ticket, params: &Value)
        ensures
            final(self)@ == body_step(old(self)@, ticket@, json::json_of(*params)),
    {
        let Some(request_id) = json::get_text(params, "requestId") else {
            self.send_session_error(
                ticket,
                CdpError::invalid_params("'requestId' parameter is required"),
            );
            return;
        };
        let Some(request) = fxmap::fx_get(&self.network_requests, &request_id.to_string()) else {
            self.send_session_error(ticket, CdpError::server("Request not found"));
            return;
        };
        let Some(body) = &request.body else {
            self.send_session_error(ticket, CdpError::server("Response body is not available"));
            return;
        };
        let reply = body_reply_json(body, request.mime_type.as_str());
        self.send_session_reply(ticket, reply);
    }

    /// Implements `DOM.getDocument`.
    fn dom_get_document(&mut self, ticket: Ticket, target_id: u64, params: &Value) -> (request: Option<
        Request,
    >)
        ensures
            (final(self)@, requests::asked(request)) == document_step(
                old(self)@,
                ticket@,
                target_id,
                json::json_of(*params),
            ),
    {
        let Some(target) = fxmap::fx_get(&self.targets, &target_id) else {
            self.send_session_error(&ticket, CdpError::server("Target not found"));
            return None;
        };
        let Some(pipeline_id) = target.current_pipeline else {
            self.send_session_error(&ticket, CdpError::server("Target has no execution context"));
            return None;
        };
        if !self.pipeline_is_ready(pipeline_id) {
            self.send_session_error(&ticket, CdpError::server("Target is not ready"));
            return None;
        }
        let depth = get_depth(params);
        Some(
            Request::GetDocument {
                ticket,
                pipeline_id,
                depth: #[verifier::truncate]
                (depth as i32),
            },
        )
    }

    /// Gives a session the children of a node, and answers.
    pub(crate) fn give_children(&mut self, ticket: &Ticket, node_id: i64, children: Vec<Value>)
        ensures
            final(self)@ == children_given(
                old(self)@,
                ticket@,
                node_id,
                json::jsons(children@),
            ),
    {
        let params = Members::new().with("parentId", json::integer(node_id)).with(
            "nodes",
            json::array(children),
        ).value();
        let event = protocol::event("DOM.setChildNodes", params);
        self.send_to_connection(
            ticket.connection_id,
            server::with_session(event, ticket.session_id.as_str()),
        );
        self.send_session_reply(ticket, server::nothing());
    }

    /// Implements `DOM.requestChildNodes` by emitting a `DOM.setChildNodes`
    /// event for the children of the given node.
    fn dom_request_child_nodes(&mut self, ticket: Ticket, params: &Value) -> (request: Option<
        Request,
    >)
        ensures
            (final(self)@, requests::asked(request)) == children_step(
                old(self)@,
                ticket@,
                json::json_of(*params),
            ),
    {
        let Some(node_id) = json::get_int(params, "nodeId") else {
            self.send_session_error(
                &ticket,
                CdpError::invalid_params("'nodeId' parameter is required"),
            );
            return None;
        };
        let Some(node) = fxmap::fx_get(&self.dom_nodes, &node_id) else {
            self.send_session_error(&ticket, CdpError::server("Could not find node with given id"));
            return None;
        };
        let pipeline_id = node.pipeline_id;
        let unique_id = node.unique_id.clone();
        let depth = get_depth(params);
        let depth: i64 = if depth < 1 {
            1
        } else {
            depth
        };
        if !self.pipeline_is_ready(pipeline_id) {
            let none: Vec<Value> = Vec::new();
            assert(json::jsons(none@) =~= Seq::empty());
            self.give_children(&ticket, node_id, none);
            return None;
        }
        Some(
            Request::GetChildren {
                ticket,
                node_id,
                pipeline_id,
                unique_id,
                depth: #[verifier::truncate]
                (depth as i32),
            },
        )
    }

    /// Implements `DOM.getBoxModel` using the layout information from the
    /// script thread.
    fn dom_get_box_model(&mut self, ticket: Ticket, params: &Value) -> (request: Option<Request>)
        ensures
            (final(self)@, requests::asked(request)) == layout_step(
                old(self)@,
                ticket@,
                json::json_of(*params),
            ),
    {
        let Some(node_id) = json::get_int(params, "nodeId") else {
            self.send_session_error(
                &ticket,
                CdpError::invalid_params("'nodeId' parameter is required"),
            );
            return None;
        };
        let Some(node) = fxmap::fx_get(&self.dom_nodes, &node_id) else {
            self.send_session_error(&ticket, CdpError::server("Could not find node with given id"));
            return None;
        };
        let pipeline_id = node.pipeline_id;
        let unique_id = node.unique_id.clone();
        if !self.pipeline_is_ready(pipeline_id) {
            self.send_session_error(&ticket, CdpError::server("Target is not ready"));
            return None;
        }
        Some(Request::GetLayout { ticket, pipeline_id, unique_id })
    }

    /// Handles a command of a session that exists.
    fn handle_session_command(
        &mut self,
        ticket: Ticket,
        target_id: u64,
        method: &str,
        params: &Value,
        now: &Value,
    ) -> (request: Option<Request>)
        requires
            old(self)@.sessions.contains_key(ticket@.session_id),
            old(self)@.sessions[ticket@.session_id].target_id == target_id,
        ensures
            command_step(
                old(self)@,
                ticket@,
                method@,
                json::json_of(*params),
                json::json_of(*now),
                final(self)@,
                requests::asked(request),
            ),
    {
        match parse_session_command(method) {
            SessionCommand::Enable(domain) => {
                self.turn_domain(&ticket, domain, true);
                match domain {
                    Domain::Page => {
                        self.emit_page_state(&ticket, target_id);
                    },
                    Domain::Runtime => {
                        self.emit_execution_contexts(&ticket, target_id);
                    },
                    _ => {},
                }
                None
            },
            SessionCommand::Disable(domain) => {
                self.turn_domain(&ticket, domain, false);
                None
            },
            SessionCommand::Navigate => self.page_navigate(ticket, target_id, params),
            SessionCommand::Script(action) => self.send_to_script_of_target(
                ticket,
                target_id,
                action,
            ),
            SessionCommand::GetNavigationHistory => {
                self.page_get_navigation_history(&ticket, target_id);
                None
            },
            SessionCommand::GetFrameTree => {
                self.page_get_tree(&ticket, target_id, "childFrames");
                None
            },
            SessionCommand::GetResourceTree => {
                self.page_get_tree(&ticket, target_id, "resources");
                None
            },
            SessionCommand::BringToFront => self.page_bring_to_front(&ticket, target_id),
            SessionCommand::CaptureScreenshot => self.page_capture_screenshot(
                ticket,
                target_id,
                params,
            ),
            SessionCommand::Unsupported => {
                let mut message = method.to_string();
                message.push_str(" is not supported by Servo");
                self.send_session_error(&ticket, CdpError::server(message.as_str()));
                None
            },
            SessionCommand::Evaluate => self.runtime_evaluate(
                ticket,
                target_id,
                json::get_text(params, "expression"),
            ),
            SessionCommand::RunScript => {
                let source = match json::get_text(params, "source") {
                    Some(source) => Some(source),
                    None => json::get_text(params, "expression"),
                };
                self.runtime_evaluate(ticket, target_id, source)
            },
            SessionCommand::CompileScript => {
                // Scripts are not precompiled; hand out an unusable but
                // well-formed id so that clients can proceed.
                self.send_session_reply(
                    &ticket,
                    browser::single_json("scriptId", json::string("0")),
                );
                None
            },
            SessionCommand::CallFunctionOn => self.runtime_call_function_on(ticket, params),
            SessionCommand::GetResponseBody => {
                self.network_get_response_body(&ticket, params);
                None
            },
            SessionCommand::GetCookies => {
                self.send_session_reply(&ticket, browser::single_json("cookies", no_items()));
                None
            },
            SessionCommand::Accept => {
                self.send_session_reply(&ticket, server::nothing());
                None
            },
            SessionCommand::GetDocument => self.dom_get_document(ticket, target_id, params),
            SessionCommand::RequestChildNodes => self.dom_request_child_nodes(ticket, params),
            SessionCommand::GetBoxModel => self.dom_get_box_model(ticket, params),
            SessionCommand::GetMessages => {
                self.send_session_reply(&ticket, browser::single_json("messages", no_items()));
                None
            },
            SessionCommand::GetMetrics => {
                let metric = Members::new().with("name", json::string("Timestamp")).with(
                    "value",
                    now.clone(),
                ).value();
                self.send_session_reply(
                    &ticket,
                    browser::single_json("metrics", one_item(metric)),
                );
                None
            },
            SessionCommand::GetDomains => {
                self.send_session_reply(&ticket, browser::single_json("domains", no_items()));
                None
            },
            SessionCommand::Unknown => {
                self.send_session_error(&ticket, CdpError::method_not_found(method));
                None
            },
        }
    }

    /// Handles a session-scoped command. `now` is the time since the server
    /// started, in seconds.
    pub(crate) fn handle_session_message(
        &mut self,
        ticket: Ticket,
        method: &str,
        params: &Value,
        user_agent: &str,
        now: &Value,
    ) -> (request: Option<Request>)
        requires
            old(self)@.room(),
        ensures
            session_step(
                old(self)@,
                ticket@,
                method@,
                json::json_of(*params),
                user_agent@,
                json::json_of(*now),
                final(self)@,
                requests::asked(request),
            ),
    {
        let own = match fxmap::fx_get(&self.sessions, &ticket.session_id) {
            Some(session) => if session.connection_id == ticket.connection_id {
                Some(session.target_id)
            } else {
                None
            },
            None => None,
        };
        let Some(target_id) = own else {
            if let Some(id) = ticket.id {
                self.send_error_to_connection(
                    ticket.connection_id,
                    id,
                    CdpError::server("Session not found"),
                );
            }
            return None;
        };
        // The `Target` domain is valid inside sessions as well.
        if text::has_prefix(method, "Target.") {
            return self.handle_browser_message(
                ticket.connection_id,
                ticket.id,
                method,
                params,
                user_agent,
            );
        }
        self.handle_session_command(ticket, target_id, method, params, now)
    }
}

} // verus!
