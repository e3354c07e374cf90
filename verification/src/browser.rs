//! Browser-level commands, those without a session: the `Browser` and `Target`
//! domains.
use serde_json::Value;
use vstd::prelude::*;

use crate::discovery;
use crate::events;
use crate::fxmap;
use crate::json;
use crate::json::Json;
use crate::json::Members;
use crate::model;
use crate::model::CdpConnection;
use crate::model::Sent;
use crate::model::State;
use crate::protocol;
use crate::protocol::CdpError;
use crate::requests;
use crate::requests::Asked;
use crate::requests::Request;
use crate::server;
use crate::server::CdpServer;
use crate::text;

verus! {

/// The browser-level commands.
#[derive(Clone, Copy, Debug, Eq, PartialEq, Structural)]
pub enum BrowserCommand {
    GetVersion,
    /// A command that is accepted and has no effect.
    Accept,
    GetWindowForTarget,
    GetProcessMetrics,
    GetTargets,
    GetTargetInfo,
    SetDiscoverTargets,
    AttachToTarget,
    SetAutoAttach,
    DetachFromTarget,
    CreateTarget,
    CloseTarget,
    ActivateTarget,
    Unknown,
}

/// The command that a method names. The embedder decides when the browser
/// exits, so `Browser.close` and `Browser.crash` have no effect, but they are
/// answered so that clients do not hang.
pub open spec fn browser_command(method: Seq<char>) -> BrowserCommand {
    if method == "Browser.getVersion"@ {
        BrowserCommand::GetVersion
    } else if method == "Browser.close"@ || method == "Browser.crash"@ {
        BrowserCommand::Accept
    } else if method == "Browser.getWindowForTarget"@ {
        BrowserCommand::GetWindowForTarget
    } else if method == "Browser.getProcessMetrics"@ {
        BrowserCommand::GetProcessMetrics
    } else if method == "Target.getTargets"@ {
        BrowserCommand::GetTargets
    } else if method == "Target.getTargetInfo"@ {
        BrowserCommand::GetTargetInfo
    } else if method == "Target.setDiscoverTargets"@ {
        BrowserCommand::SetDiscoverTargets
    } else if method == "Target.attachToTarget"@ {
        BrowserCommand::AttachToTarget
    } else if method == "Target.setAutoAttach"@ {
        BrowserCommand::SetAutoAttach
    } else if method == "Target.detachFromTarget"@ {
        BrowserCommand::DetachFromTarget
    } else if method == "Target.createTarget"@ {
        BrowserCommand::CreateTarget
    } else if method == "Target.closeTarget"@ {
        BrowserCommand::CloseTarget
    } else if method == "Target.activateTarget"@ {
        BrowserCommand::ActivateTarget
    } else if method == "Target.exposeDevToolsProtocol"@ {
        BrowserCommand::Accept
    } else {
        BrowserCommand::Unknown
    }
}

/// The command that a method names.
fn parse_browser_command(method: &str) -> (command: BrowserCommand)
    ensures
        command == browser_command(method@),
{
    if text::same_text(method, "Browser.getVersion") {
        BrowserCommand::GetVersion
    } else if text::same_text(method, "Browser.close") || text::same_text(
        method,
        "Browser.crash",
    ) {
        BrowserCommand::Accept
    } else if text::same_text(method, "Browser.getWindowForTarget") {
        BrowserCommand::GetWindowForTarget
    } else if text::same_text(method, "Browser.getProcessMetrics") {
        BrowserCommand::GetProcessMetrics
    } else if text::same_text(method, "Target.getTargets") {
        BrowserCommand::GetTargets
    } else if text::same_text(method, "Target.getTargetInfo") {
        BrowserCommand::GetTargetInfo
    } else if text::same_text(method, "Target.setDiscoverTargets") {
        BrowserCommand::SetDiscoverTargets
    } else if text::same_text(method, "Target.attachToTarget") {
        BrowserCommand::AttachToTarget
    } else if text::same_text(method, "Target.setAutoAttach") {
        BrowserCommand::SetAutoAttach
    } else if text::same_text(method, "Target.detachFromTarget") {
        BrowserCommand::DetachFromTarget
    } else if text::same_text(method, "Target.createTarget") {
        BrowserCommand::CreateTarget
    } else if text::same_text(method, "Target.closeTarget") {
        BrowserCommand::CloseTarget
    } else if text::same_text(method, "Target.activateTarget") {
        BrowserCommand::ActivateTarget
    } else if text::same_text(method, "Target.exposeDevToolsProtocol") {
        BrowserCommand::Accept
    } else {
        BrowserCommand::Unknown
    }
}

/// A version with three more components.
pub open spec fn full_version(version: Seq<char>) -> Seq<char> {
    version + ".0.0.0"@
}

/// The reply to `Browser.getVersion`. It reports a Chromium product and a
/// plausible V8 version so that clients do not flag the browser as
/// unsupported.
pub open spec fn version_reply(user_agent: Seq<char>) -> Json {
    let version = discovery::chrome_version(user_agent);
    Json::Object(
        map![
            "protocolVersion"@ => Json::Text("1.3"@),
            "product"@ => Json::Text("Chrome/"@ + full_version(version)),
            "revision"@ => Json::Text("@"@ + version),
            "userAgent"@ => Json::Text(user_agent),
            "jsVersion"@ => Json::Text(full_version(version)),
        ],
    )
}

/// The reply to `Browser.getWindowForTarget`.
pub open spec fn window_reply() -> Json {
    Json::Object(
        map![
            "windowId"@ => Json::Int(1),
            "bounds"@ => Json::Object(
                map![
                    "left"@ => Json::Int(0),
                    "top"@ => Json::Int(0),
                    "width"@ => Json::Int(0),
                    "height"@ => Json::Int(0),
                    "windowState"@ => Json::Text("normal"@),
                ],
            ),
        ],
    )
}

/// An object with one member.
pub open spec fn single(key: Seq<char>, item: Json) -> Json {
    Json::Object(map![key => item])
}

/// An object with one member.
pub(crate) fn single_json(key: &str, item: Value) -> (value: Value)
    ensures
        json::json_of(value) == single(key@, json::json_of(item)),
{
    Members::new().with(key, item).value()
}

/// The infos of targets, in the given order.
pub open spec fn target_infos(state: State, order: Seq<u64>) -> Seq<Json> {
    order.map_values(|target_id: u64| state.target_info(target_id))
}

/// All targets are listed in the reply, in some order.
pub open spec fn targets_listed(before: State, connection_id: u64, id: i64, after: State) -> bool {
    exists|order: Seq<u64>| #[trigger]
        fxmap::lists(order, before.targets.dom()) && after == before.answer(
            connection_id,
            id,
            single("targetInfos"@, Json::Array(target_infos(before, order))),
        )
}

/// The target that the `targetId` parameter names.
pub open spec fn named_target(state: State, params: Json) -> Option<u64> {
    match json::text_member(params, "targetId"@) {
        Some(name) => if state.target_ids.contains_key(name) {
            Some(state.target_ids[name])
        } else {
            None
        },
        None => None,
    }
}

/// A connection, if there is one, asks for target discovery or no longer does.
pub open spec fn discovery_set(state: State, connection_id: u64, discover: bool) -> State {
    if state.connections.contains_key(connection_id) {
        State {
            connections: state.connections.insert(
                connection_id,
                CdpConnection {
                    target_discovery: discover,
                    ..state.connections[connection_id]
                },
            ),
            ..state
        }
    } else {
        state
    }
}

/// A connection, if there is one, asks for automatic attachment or no longer
/// does.
pub open spec fn auto_attach_set(state: State, connection_id: u64, auto_attach: bool) -> State {
    if state.connections.contains_key(connection_id) {
        State {
            connections: state.connections.insert(
                connection_id,
                CdpConnection { auto_attach, ..state.connections[connection_id] },
            ),
            ..state
        }
    } else {
        state
    }
}

/// The events that introduce, or take back, each of the targets.
pub open spec fn target_events(
    state: State,
    connection_id: u64,
    order: Seq<u64>,
    discover: bool,
) -> Seq<Sent> {
    let method = if discover {
        "Target.targetCreated"@
    } else {
        "Target.targetRemoved"@
    };
    order.map_values(
        |target_id: u64|
            (connection_id, model::target_event(method, state.target_info(target_id))),
    )
}

/// A client turns target discovery on or off: it is told of every target, in
/// some order, and then answered.
pub open spec fn discovery_turned(
    before: State,
    connection_id: u64,
    id: i64,
    discover: bool,
    after: State,
) -> bool {
    exists|order: Seq<u64>| #[trigger]
        fxmap::lists(order, before.targets.dom()) && {
            let set = discovery_set(before, connection_id, discover);
            after == (State {
                outbox: set.outbox + target_events(set, connection_id, order, discover),
                ..set
            }).answer(connection_id, id, model::nothing())
        }
}

/// Each of the targets is attached to a connection, one after the other.
pub open spec fn attach_targets(state: State, connection_id: u64, order: Seq<u64>) -> State
    decreases order.len(),
{
    if order.len() == 0 {
        state
    } else {
        attach_targets(state, connection_id, order.drop_last()).attach(connection_id, order.last())
    }
}

/// A client turns automatic attachment on or off. Where it is turned on, every
/// target is attached, in some order.
pub open spec fn auto_attach_turned(
    before: State,
    connection_id: u64,
    id: i64,
    auto_attach: bool,
    after: State,
) -> bool {
    let set = auto_attach_set(before, connection_id, auto_attach);
    if auto_attach {
        exists|order: Seq<u64>| #[trigger]
            fxmap::lists(order, before.targets.dom()) && after == attach_targets(
                set,
                connection_id,
                order,
            ).answer(connection_id, id, model::nothing())
    } else {
        after == set.answer(connection_id, id, model::nothing())
    }
}

/// The session is the one most recently created for the connection; where the
/// connection has none, the id is empty.
pub open spec fn is_last_session(state: State, connection_id: u64, session_id: Seq<char>) -> bool {
    let own = server::sessions_of(state, connection_id);
    if own.contains(session_id) {
        forall|other: Seq<char>| #[trigger]
            own.contains(other) ==> state.sessions[other].number
                <= state.sessions[session_id].number
    } else {
        session_id == Seq::<char>::empty() && forall|other: Seq<char>| !own.contains(other)
    }
}

/// A target is attached, and the client answered with the id of the session
/// that it created last.
pub open spec fn attached(
    before: State,
    connection_id: u64,
    id: i64,
    target_id: u64,
    after: State,
) -> bool {
    let state = before.attach(connection_id, target_id);
    exists|session_id: Seq<char>| #[trigger]
        is_last_session(state, connection_id, session_id) && after == state.answer(
            connection_id,
            id,
            single("sessionId"@, Json::Text(session_id)),
        )
}

/// A web view of a target with the given id.
pub open spec fn is_webview_of(state: State, name: Seq<char>, webview_id: u64) -> bool {
    exists|target_id: u64|
        state.targets.contains_key(target_id) && (#[trigger] state.targets[target_id]).webview_id
            == webview_id && state.targets[target_id].target_id_string == name
}

/// A target has the given id.
pub open spec fn is_target_id(state: State, name: Seq<char>) -> bool {
    exists|target_id: u64|
        state.targets.contains_key(target_id) && (
        #[trigger] state.targets[target_id]).target_id_string == name
}

/// The given id is set aside for a web view.
pub open spec fn is_set_aside(state: State, name: Seq<char>) -> bool {
    exists|webview_id: u64|
        state.pending_targets.contains_key(webview_id)
            && #[trigger] state.pending_targets[webview_id] == name
}

/// The web view that the `targetId` parameter names: that of a target, or else
/// one for which the id is set aside, where such a one counts.
pub open spec fn webview_found(
    state: State,
    params: Json,
    pending: bool,
    found: Option<u64>,
) -> bool {
    match json::text_member(params, "targetId"@) {
        Some(name) => match found {
            Some(webview_id) => {
                ||| is_webview_of(state, name, webview_id)
                ||| {
                    &&& pending
                    &&& !is_target_id(state, name)
                    &&& state.pending_targets.contains_key(webview_id)
                    &&& state.pending_targets[webview_id] == name
                }
            },
            None => !is_target_id(state, name) && (pending ==> !is_set_aside(state, name)),
        },
        None => found is None,
    }
}

/// The URL that a new target is to show.
pub open spec fn requested_url(params: Json) -> Seq<char> {
    match json::text_member(params, "url"@) {
        Some(url) => url,
        None => "about:blank"@,
    }
}

/// The message for a target that does not exist.
pub open spec fn no_target_text() -> Seq<char> {
    "No target with given id found"@
}

/// What is asked so that a target is closed; one that is not found is refused.
pub open spec fn close_step(
    before: State,
    connection_id: u64,
    id: i64,
    params: Json,
    found: Option<u64>,
    after: State,
    asked: Option<Asked>,
) -> bool {
    &&& webview_found(before, params, true, found)
    &&& match found {
        Some(webview_id) => {
            &&& after == before
            &&& asked == Some(
                Asked::CloseTarget {
                    connection_id,
                    id,
                    target_id: json::text_member(params, "targetId"@)->Some_0,
                    webview_id,
                },
            )
        },
        None => {
            &&& after == before.refuse(
                connection_id,
                id,
                protocol::ERROR_SERVER_ERROR,
                no_target_text(),
            )
            &&& asked is None
        },
    }
}

/// What is asked so that a target comes to the front; one that is not found is
/// refused.
pub open spec fn activate_step(
    before: State,
    connection_id: u64,
    id: i64,
    params: Json,
    found: Option<u64>,
    after: State,
    asked: Option<Asked>,
) -> bool {
    &&& webview_found(before, params, false, found)
    &&& match found {
        Some(webview_id) => {
            &&& after == before.answer(connection_id, id, model::nothing())
            &&& asked == Some(Asked::Focus { webview_id })
        },
        None => {
            &&& after == before.refuse(
                connection_id,
                id,
                protocol::ERROR_SERVER_ERROR,
                no_target_text(),
            )
            &&& asked is None
        },
    }
}

/// A session is detached, if one is named.
pub open spec fn detached(state: State, params: Json) -> State {
    match json::text_member(params, "sessionId"@) {
        Some(session_id) => State { sessions: state.sessions.remove(session_id), ..state },
        None => state,
    }
}

/// What `Target.attachToTarget` leads to. Only the flat session mode is
/// supported.
pub open spec fn attach_step(
    before: State,
    connection_id: u64,
    id: i64,
    params: Json,
    after: State,
) -> bool {
    if !json::flag_member(params, "flatten"@) {
        after == before.refuse(
            connection_id,
            id,
            protocol::ERROR_INVALID_REQUEST,
            "only the flat session mode is supported"@,
        )
    } else {
        match named_target(before, params) {
            Some(target_id) => attached(before, connection_id, id, target_id, after),
            None => after == before.refuse(
                connection_id,
                id,
                protocol::ERROR_SERVER_ERROR,
                no_target_text(),
            ),
        }
    }
}

/// What a browser-level command with an id leads to.
pub open spec fn command_step(
    before: State,
    connection_id: u64,
    id: i64,
    method: Seq<char>,
    params: Json,
    user_agent: Seq<char>,
    after: State,
    asked: Option<Asked>,
) -> bool {
    match browser_command(method) {
        BrowserCommand::GetVersion => {
            &&& after == before.answer(connection_id, id, version_reply(user_agent))
            &&& asked is None
        },
        BrowserCommand::Accept => {
            &&& after == before.answer(connection_id, id, model::nothing())
            &&& asked is None
        },
        BrowserCommand::GetWindowForTarget => {
            &&& after == before.answer(connection_id, id, window_reply())
            &&& asked is None
        },
        BrowserCommand::GetProcessMetrics => {
            &&& after == before.answer(
                connection_id,
                id,
                single("processMetrics"@, Json::Array(Seq::empty())),
            )
            &&& asked is None
        },
        BrowserCommand::GetTargets => {
            &&& targets_listed(before, connection_id, id, after)
            &&& asked is None
        },
        BrowserCommand::GetTargetInfo => {
            &&& after == before.answer(
                connection_id,
                id,
                single(
                    "targetInfo"@,
                    match named_target(before, params) {
                        Some(target_id) => before.target_info(target_id),
                        None => Json::Null,
                    },
                ),
            )
            &&& asked is None
        },
        BrowserCommand::SetDiscoverTargets => {
            &&& discovery_turned(
                before,
                connection_id,
                id,
                json::flag_member(params, "discover"@),
                after,
            )
            &&& asked is None
        },
        BrowserCommand::AttachToTarget => {
            &&& attach_step(before, connection_id, id, params, after)
            &&& asked is None
        },
        BrowserCommand::SetAutoAttach => {
            &&& auto_attach_turned(
                before,
                connection_id,
                id,
                json::flag_member(params, "autoAttach"@),
                after,
            )
            &&& asked is None
        },
        BrowserCommand::DetachFromTarget => {
            &&& after == detached(before, params).answer(connection_id, id, model::nothing())
            &&& asked is None
        },
        BrowserCommand::CreateTarget => {
            &&& after == before
            &&& asked == Some(
                Asked::CreateTarget { connection_id, id, url: requested_url(params) },
            )
        },
        BrowserCommand::CloseTarget => exists|found: Option<u64>| #[trigger]
            close_step(before, connection_id, id, params, found, after, asked),
        BrowserCommand::ActivateTarget => exists|found: Option<u64>| #[trigger]
            activate_step(before, connection_id, id, params, found, after, asked),
        BrowserCommand::Unknown => {
            &&& after == before.refuse(
                connection_id,
                id,
                protocol::ERROR_METHOD_NOT_FOUND,
                protocol::not_found_text(method),
            )
            &&& asked is None
        },
    }
}

/// What a browser-level command leads to. One without an id leads to nothing.
pub open spec fn browser_step(
    before: State,
    connection_id: u64,
    id: Option<i64>,
    method: Seq<char>,
    params: Json,
    user_agent: Seq<char>,
    after: State,
    asked: Option<Asked>,
) -> bool {
    match id {
        Some(id) => command_step(
            before,
            connection_id,
            id,
            method,
            params,
            user_agent,
            after,
            asked,
        ),
        None => after == before && asked is None,
    }
}

/// Builds the reply to `Browser.getVersion`.
fn version_reply_json(user_agent: &str) -> (value: Value)
    ensures
        json::json_of(value) == version_reply(user_agent@),
{
    let version = discovery::chrome_major_version(user_agent);
    let mut full = version.to_string();
    full.push_str(".0.0.0");
    let mut product = "Chrome/".to_string();
    product.push_str(full.as_str());
    let mut revision = "@".to_string();
    revision.push_str(version);
    Members::new().with("protocolVersion", json::string("1.3")).with(
        "product",
        json::string(product.as_str()),
    ).with("revision", json::string(revision.as_str())).with(
        "userAgent",
        json::string(user_agent),
    ).with("jsVersion", json::string(full.as_str())).value()
}

/// Builds the reply to `Browser.getWindowForTarget`.
fn window_reply_json() -> (value: Value)
    ensures
        json::json_of(value) == window_reply(),
{
    let bounds = Members::new().with("left", json::integer(0)).with("top", json::integer(0)).with(
        "width",
        json::integer(0),
    ).with("height", json::integer(0)).with("windowState", json::string("normal")).value();
    Members::new().with("windowId", json::integer(1)).with("bounds", bounds).value()
}

impl CdpServer {
    /// All targets.
    fn target_keys(&self) -> (ids: Vec<u64>)
        ensures
            fxmap::lists(ids@, self@.targets.dom()),
            ids@.len() == self@.targets.dom().len(),
    {
        let ids = fxmap::fx_keys(&self.targets);
        assert(fxmap::views(ids@) =~= ids@);
        proof {
            fxmap::lemma_lists_len(ids@, self@.targets.dom());
        }
        ids
    }

    /// The target that the `targetId` parameter names.
    fn find_named_target(&self, params: &Value) -> (target_id: Option<u64>)
        ensures
            target_id == named_target(self@, json::json_of(*params)),
    {
        match json::get_text(params, "targetId") {
            Some(name) => match fxmap::fx_get(&self.target_ids, &name.to_string()) {
                Some(target_id) => Some(*target_id),
                None => None,
            },
            None => None,
        }
    }

    /// Lists all targets in the reply.
    fn list_targets(&mut self, connection_id: u64, id: i64)
        ensures
            targets_listed(old(self)@, connection_id, id, final(self)@),
    {
        let ids = self.target_keys();
        let mut infos: Vec<Value> = Vec::new();
        let mut i: usize = 0;
        assert(json::jsons(infos@) =~= target_infos(self@, ids@.take(0)));
        while i < ids.len()
            invariant
                i <= ids@.len(),
                self@ == old(self)@,
                json::jsons(infos@) == target_infos(self@, ids@.take(i as int)),
            decreases ids@.len() - i,
        {
            let ghost done = infos@;
            infos.push(self.target_info_json(ids[i]));
            assert(json::jsons(infos@) =~= json::jsons(done).push(
                self@.target_info(ids@[i as int]),
            ));
            i += 1;
            assert(target_infos(self@, ids@.take(i as int)) =~= target_infos(
                self@,
                ids@.take(i - 1),
            ).push(self@.target_info(ids@[i - 1])));
        }
        assert(ids@.take(i as int) =~= ids@);
        self.send_reply_to_connection(
            connection_id,
            id,
            single_json("targetInfos", json::array(infos)),
        );
    }

    /// Turns target discovery on or off for a connection.
    fn turn_discovery(&mut self, connection_id: u64, id: i64, discover: bool)
        ensures
            discovery_turned(old(self)@, connection_id, id, discover, final(self)@),
    {
        let ids = self.target_keys();
        if let Some(connection) = fxmap::fx_get(&self.connections, &connection_id) {
            let auto_attach = connection.auto_attach;
            fxmap::fx_insert(
                &mut self.connections,
                connection_id,
                CdpConnection { auto_attach, target_discovery: discover },
            );
        }
        let ghost set = self@;
        assert(set =~= discovery_set(old(self)@, connection_id, discover));
        let method = if discover {
            "Target.targetCreated"
        } else {
            "Target.targetRemoved"
        };
        let mut i: usize = 0;
        assert(set.outbox + target_events(set, connection_id, ids@.take(0), discover)
            =~= set.outbox);
        while i < ids.len()
            invariant
                i <= ids@.len(),
                method@ == if discover {
                    "Target.targetCreated"@
                } else {
                    "Target.targetRemoved"@
                },
                self@ == (State {
                    outbox: set.outbox + target_events(
                        set,
                        connection_id,
                        ids@.take(i as int),
                        discover,
                    ),
                    ..set
                }),
            decreases ids@.len() - i,
        {
            let info = self.target_info_json(ids[i]);
            assert(json::json_of(info) == set.target_info(ids@[i as int]));
            self.send_to_connection(connection_id, events::target_event(method, info));
            i += 1;
            assert(set.outbox + target_events(set, connection_id, ids@.take(i as int), discover)
                =~= (set.outbox + target_events(set, connection_id, ids@.take(i - 1), discover)).push(
                (connection_id, model::target_event(method@, set.target_info(ids@[i - 1]))),
            ));
        }
        assert(ids@.take(i as int) =~= ids@);
        self.send_reply_to_connection(connection_id, id, server::nothing());
    }

    /// Turns automatic attachment on or off for a connection.
    fn turn_auto_attach(&mut self, connection_id: u64, id: i64, auto_attach: bool)
        requires
            old(self)@.next_session_number + old(self)@.targets.dom().len() <= u64::MAX,
        ensures
            auto_attach_turned(old(self)@, connection_id, id, auto_attach, final(self)@),
    {
        if let Some(connection) = fxmap::fx_get(&self.connections, &connection_id) {
            let target_discovery = connection.target_discovery;
            fxmap::fx_insert(
                &mut self.connections,
                connection_id,
                CdpConnection { auto_attach, target_discovery },
            );
        }
        let ghost set = self@;
        assert(set =~= auto_attach_set(old(self)@, connection_id, auto_attach));
        if auto_attach {
            let ids = self.target_keys();
            let mut i: usize = 0;
            while i < ids.len()
                invariant
                    i <= ids@.len(),
                    set.next_session_number + ids@.len() <= u64::MAX,
                    self@ == attach_targets(set, connection_id, ids@.take(i as int)),
                    self@.next_session_number <= set.next_session_number + i,
                decreases ids@.len() - i,
            {
                self.attach_session(connection_id, ids[i]);
                i += 1;
                assert(ids@.take(i as int).drop_last() =~= ids@.take(i - 1));
            }
            assert(ids@.take(i as int) =~= ids@);
        }
        self.send_reply_to_connection(connection_id, id, server::nothing());
    }

    /// Returns the session id most recently created for a connection.
    fn last_session_id_for_connection(&self, connection_id: u64) -> (session_id: String)
        ensures
            is_last_session(self@, connection_id, session_id@),
    {
        let keys = fxmap::fx_keys(&self.sessions);
        let ghost all = fxmap::views(keys@);
        let ghost own = server::sessions_of(self@, connection_id);
        let mut last: Option<(usize, u64)> = None;
        let mut i: usize = 0;
        while i < keys.len()
            invariant
                i <= keys@.len(),
                all == fxmap::views(keys@),
                fxmap::lists(all, self@.sessions.dom()),
                own == server::sessions_of(self@, connection_id),
                match last {
                    Some((at, number)) => {
                        &&& at < i
                        &&& own.contains(all[at as int])
                        &&& self@.sessions[all[at as int]].number == number
                        &&& forall|j: int|
                            0 <= j < i && own.contains(#[trigger] all[j])
                                ==> self@.sessions[all[j]].number <= number
                    },
                    None => forall|j: int| 0 <= j < i ==> !own.contains(#[trigger] all[j]),
                },
            decreases keys@.len() - i,
        {
            assert(all.contains(all[i as int]));
            if let Some(session) = fxmap::fx_get(&self.sessions, &keys[i]) {
                if session.connection_id == connection_id {
                    let later = match last {
                        Some((_, number)) => session.number > number,
                        None => true,
                    };
                    if later {
                        last = Some((i, session.number));
                    }
                }
            }
            i += 1;
        }
        proof {
            assert forall|other: Seq<char>| #[trigger] own.contains(other) implies exists|j: int|
                0 <= j < all.len() && #[trigger] all[j] == other by {
                assert(all.contains(other));
            }
        }
        match last {
            Some((at, _)) => keys[at].clone(),
            None => {
                let none = String::new();
                assert(none@ =~= Seq::empty());
                none
            },
        }
    }

    /// Attaches a target and answers with the session.
    fn attach_and_answer(&mut self, connection_id: u64, id: i64, target_id: u64)
        requires
            old(self)@.next_session_number < u64::MAX,
        ensures
            attached(old(self)@, connection_id, id, target_id, final(self)@),
    {
        self.attach_session(connection_id, target_id);
        // Reply with the newly created session id, which is the most recent
        // session created for this connection.
        let session_id = self.last_session_id_for_connection(connection_id);
        self.send_reply_to_connection(
            connection_id,
            id,
            single_json("sessionId", json::string(session_id.as_str())),
        );
    }

    /// A web view of a target with the given id.
    fn webview_of_target(&self, name: &str) -> (found: Option<u64>)
        ensures
            match found {
                Some(webview_id) => is_webview_of(self@, name@, webview_id),
                None => !is_target_id(self@, name@),
            },
    {
        let ids = self.target_keys();
        let mut i: usize = 0;
        while i < ids.len()
            invariant
                i <= ids@.len(),
                fxmap::lists(ids@, self@.targets.dom()),
                forall|j: int|
                    0 <= j < i ==> self@.targets[#[trigger] ids@[j]].target_id_string != name@,
            decreases ids@.len() - i,
        {
            assert(ids@.contains(ids@[i as int]));
            if let Some(target) = fxmap::fx_get(&self.targets, &ids[i]) {
                if text::same_text(target.target_id_string.as_str(), name) {
                    assert(self@.targets[ids@[i as int]].webview_id == target.webview_id);
                    return Some(target.webview_id);
                }
            }
            i += 1;
        }
        proof {
            assert forall|target_id: u64| self@.targets.contains_key(target_id) implies (
            #[trigger] self@.targets[target_id]).target_id_string != name@ by {
                assert(ids@.contains(target_id));
                let j = choose|j: int| 0 <= j < ids@.len() && ids@[j] == target_id;
                assert(ids@[j] == target_id);
            }
        }
        None
    }

    /// A web view for which the given id is set aside.
    fn webview_set_aside(&self, name: &str) -> (found: Option<u64>)
        ensures
            match found {
                Some(webview_id) => {
                    &&& self@.pending_targets.contains_key(webview_id)
                    &&& self@.pending_targets[webview_id] == name@
                },
                None => !is_set_aside(self@, name@),
            },
    {
        let ids = fxmap::fx_keys(&self.pending_targets);
        assert(fxmap::views(ids@) =~= ids@);
        let mut i: usize = 0;
        while i < ids.len()
            invariant
                i <= ids@.len(),
                fxmap::lists(ids@, self@.pending_targets.dom()),
                forall|j: int| 0 <= j < i ==> self@.pending_targets[#[trigger] ids@[j]] != name@,
            decreases ids@.len() - i,
        {
            assert(ids@.contains(ids@[i as int]));
            if let Some(pending) = fxmap::fx_get(&self.pending_targets, &ids[i]) {
                if text::same_text(pending.as_str(), name) {
                    return Some(ids[i]);
                }
            }
            i += 1;
        }
        proof {
            assert forall|webview_id: u64| self@.pending_targets.contains_key(webview_id) implies
                #[trigger] self@.pending_targets[webview_id] != name@ by {
                assert(ids@.contains(webview_id));
                let j = choose|j: int| 0 <= j < ids@.len() && ids@[j] == webview_id;
                assert(ids@[j] == webview_id);
            }
        }
        None
    }

    /// The web view that the `targetId` parameter names.
    fn find_webview(&self, params: &Value, pending: bool) -> (found: Option<u64>)
        ensures
            webview_found(self@, json::json_of(*params), pending, found),
    {
        let Some(name) = json::get_text(params, "targetId") else {
            return None;
        };
        if let Some(webview_id) = self.webview_of_target(name) {
            return Some(webview_id);
        }
        // The target may still be pending creation.
        if pending {
            self.webview_set_aside(name)
        } else {
            None
        }
    }

    /// Handles a browser-level command (one without a session).
    pub(crate) fn handle_browser_message(
        &mut self,
        connection_id: u64,
        id: Option<i64>,
        method: &str,
        params: &Value,
        user_agent: &str,
    ) -> (request: Option<Request>)
        requires
            old(self)@.room(),
        ensures
            browser_step(
                old(self)@,
                connection_id,
                id,
                method@,
                json::json_of(*params),
                user_agent@,
                final(self)@,
                requests::asked(request),
            ),
    {
        let Some(id) = id else {
            return None;
        };
        match parse_browser_command(method) {
            BrowserCommand::GetVersion => {
                self.send_reply_to_connection(connection_id, id, version_reply_json(user_agent));
                None
            },
            BrowserCommand::Accept => {
                self.send_reply_to_connection(connection_id, id, server::nothing());
                None
            },
            BrowserCommand::GetWindowForTarget => {
                self.send_reply_to_connection(connection_id, id, window_reply_json());
                None
            },
            BrowserCommand::GetProcessMetrics => {
                let none: Vec<Value> = Vec::new();
                assert(json::jsons(none@) =~= Seq::empty());
                self.send_reply_to_connection(
                    connection_id,
                    id,
                    single_json("processMetrics", json::array(none)),
                );
                None
            },
            BrowserCommand::GetTargets => {
                self.list_targets(connection_id, id);
                None
            },
            BrowserCommand::GetTargetInfo => {
                let info = match self.find_named_target(params) {
                    Some(target_id) => self.target_info_json(target_id),
                    None => json::null(),
                };
                self.send_reply_to_connection(connection_id, id, single_json("targetInfo", info));
                None
            },
            BrowserCommand::SetDiscoverTargets => {
                self.turn_discovery(connection_id, id, json::get_flag(params, "discover"));
                None
            },
            BrowserCommand::AttachToTarget => {
                if !json::get_flag(params, "flatten") {
                    self.send_error_to_connection(
                        connection_id,
                        id,
                        CdpError::invalid_params("only the flat session mode is supported"),
                    );
                } else if let Some(target_id) = self.find_named_target(params) {
                    self.attach_and_answer(connection_id, id, target_id);
                } else {
                    self.send_error_to_connection(
                        connection_id,
                        id,
                        CdpError::server("No target with given id found"),
                    );
                }
                None
            },
            BrowserCommand::SetAutoAttach => {
                self.turn_auto_attach(connection_id, id, json::get_flag(params, "autoAttach"));
                None
            },
            BrowserCommand::DetachFromTarget => {
                if let Some(session_id) = json::get_text(params, "sessionId") {
                    fxmap::fx_remove(&mut self.sessions, &session_id.to_string());
                }
                self.send_reply_to_connection(connection_id, id, server::nothing());
                None
            },
            BrowserCommand::CreateTarget => {
                let url = match json::get_text(params, "url") {
                    Some(url) => url,
                    None => "about:blank",
                };
                Some(Request::CreateTarget { connection_id, id, url: url.to_string() })
            },
            BrowserCommand::CloseTarget => {
                let found = self.find_webview(params, true);
                let name = match json::get_text(params, "targetId") {
                    Some(name) => name.to_string(),
                    None => String::new(),
                };
                let request = match found {
                    Some(webview_id) => Some(
                        Request::CloseTarget { connection_id, id, target_id: name, webview_id },
                    ),
                    None => {
                        self.send_error_to_connection(
                            connection_id,
                            id,
                            CdpError::server("No target with given id found"),
                        );
                        None
                    },
                };
                assert(close_step(
                    old(self)@,
                    connection_id,
                    id,
                    json::json_of(*params),
                    found,
                    self@,
                    requests::asked(request),
                ));
                request
            },
            BrowserCommand::ActivateTarget => {
                let found = self.find_webview(params, false);
                let request = match found {
                    Some(webview_id) => {
                        self.send_reply_to_connection(connection_id, id, server::nothing());
                        Some(Request::Focus { webview_id })
                    },
                    None => {
                        self.send_error_to_connection(
                            connection_id,
                            id,
                            CdpError::server("No target with given id found"),
                        );
                        None
                    },
                };
                assert(activate_step(
                    old(self)@,
                    connection_id,
                    id,
                    json::json_of(*params),
                    found,
                    self@,
                    requests::asked(request),
                ));
                request
            },
            BrowserCommand::Unknown => {
                self.send_error_to_connection(
                    connection_id,
                    id,
                    CdpError::method_not_found(method),
                );
                None
            },
        }
    }
}

} // verus!
