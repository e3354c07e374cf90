//! Browser events: what happens in the browser, and what the clients that
//! subscribed to it are told.
use serde_json::Value;
use vstd::prelude::*;

use crate::fxmap;
use crate::json;
use crate::json::Json;
use crate::json::Members;
use crate::model;
use crate::model::Audience;
use crate::model::CdpConnection;
use crate::model::CdpPipeline;
use crate::model::CdpTarget;
use crate::model::Pipeline;
use crate::model::Sent;
use crate::model::State;
use crate::model::Target;
use crate::protocol;
use crate::server;
use crate::server::CdpServer;
use crate::text;

verus! {

/// A document.
#[derive(Debug)]
pub struct PageInfo {
    pub title: String,
    pub url: String,
    /// The origin of the URL.
    pub origin: String,
}

/// A new script global.
#[derive(Debug)]
pub struct NewGlobal {
    pub browsing_context_id: u64,
    pub pipeline_id: u64,
    /// The name that tells the pipeline from all others.
    pub label: String,
    /// The global is that of a worker.
    pub is_worker: bool,
    pub webview_id: u64,
    pub page: PageInfo,
}

/// What a connection may have asked for.
#[derive(Clone, Copy, Debug, Eq, PartialEq, Structural)]
pub enum Subscription {
    Discovery,
    AutoAttach,
}

/// A connection asked for the subscription.
pub open spec fn subscribed(connection: CdpConnection, subscription: Subscription) -> bool {
    match subscription {
        Subscription::Discovery => connection.target_discovery,
        Subscription::AutoAttach => connection.auto_attach,
    }
}

/// The connections that asked for the subscription.
pub open spec fn subscribers(
    connections: Map<u64, CdpConnection>,
    subscription: Subscription,
) -> Set<u64> {
    Set::new(|id: u64| connections.contains_key(id) && subscribed(connections[id], subscription))
}

/// A message to each of the connections.
pub open spec fn to_each(order: Seq<u64>, message: Json) -> Seq<Sent> {
    order.map_values(|id: u64| (id, message))
}

/// A message goes out to every connection that asked for target discovery, in
/// some order.
pub open spec fn discovered(before: State, message: Json, after: State) -> bool {
    exists|order: Seq<u64>| #[trigger]
        fxmap::lists(order, subscribers(before.connections, Subscription::Discovery)) && after == (
        State { outbox: before.outbox + to_each(order, message), ..before })
}

/// A target is attached to each of the connections, one after the other.
pub open spec fn attach_each(state: State, order: Seq<u64>, target_id: u64) -> State
    decreases order.len(),
{
    if order.len() == 0 {
        state
    } else {
        attach_each(state, order.drop_last(), target_id).attach(order.last(), target_id)
    }
}

/// A target is attached to every connection that asked for it, in some order.
pub open spec fn auto_attached(before: State, target_id: u64, after: State) -> bool {
    exists|order: Seq<u64>| #[trigger]
        fxmap::lists(order, subscribers(before.connections, Subscription::AutoAttach)) && after
            == attach_each(before, order, target_id)
}

/// The pipeline of a target before a new global shows up.
pub open spec fn previous_pipeline(state: State, target_id: u64) -> Option<u64> {
    if state.targets.contains_key(target_id) {
        state.targets[target_id].current_pipeline
    } else {
        None
    }
}

/// The entry of a pipeline.
pub open spec fn pipeline_entry(
    browsing_context_id: u64,
    execution_context_id: i64,
    label: Seq<char>,
    origin: Seq<char>,
    ready: bool,
) -> Pipeline {
    Pipeline { browsing_context_id, execution_context_id, label, origin, ready }
}

/// A target that is known gets a new document.
pub open spec fn renewed(target: Target, pipeline_id: u64, page: PageInfo) -> Target {
    Target {
        current_pipeline: Some(pipeline_id),
        title: page.title@,
        url: page.url@,
        origin: page.origin@,
        ..target
    }
}

/// The target id of a new target: the one set aside for its web view, or else
/// the next free one.
pub open spec fn assigned_id(state: State, webview_id: u64) -> Seq<char> {
    if state.pending_targets.contains_key(webview_id) {
        state.pending_targets[webview_id]
    } else {
        model::page_id(state.next_target_number)
    }
}

/// A new target is entered. Where its id was set aside by
/// `Target.createTarget`, the reply that was held back is released, for the
/// target is attachable from this point on.
pub open spec fn target_entered(before: State, global: NewGlobal) -> State {
    let webview_id = global.webview_id;
    let id = assigned_id(before, webview_id);
    let set_aside = before.pending_targets.contains_key(webview_id);
    let entered = State {
        next_target_number: if set_aside {
            before.next_target_number
        } else {
            (before.next_target_number + 1) as u64
        },
        pending_targets: before.pending_targets.remove(webview_id),
        target_ids: before.target_ids.insert(id, global.browsing_context_id),
        targets: before.targets.insert(
            global.browsing_context_id,
            Target {
                target_id_string: id,
                webview_id,
                title: global.page.title@,
                url: global.page.url@,
                origin: global.page.origin@,
                loading: false,
                current_pipeline: Some(global.pipeline_id),
            },
        ),
        ..before
    };
    if set_aside && before.pending_create_replies.contains_key(webview_id) {
        let pending = before.pending_create_replies[webview_id];
        State {
            pending_create_replies: before.pending_create_replies.remove(webview_id),
            ..entered
        }.answer(
            pending.connection_id,
            pending.id,
            Json::Object(map!["targetId"@ => Json::Text(id)]),
        )
    } else {
        entered
    }
}

/// A global is entered, with its target and its pipeline.
pub open spec fn global_entered(before: State, global: NewGlobal) -> State {
    let target_id = global.browsing_context_id;
    let with_target = if before.targets.contains_key(target_id) {
        State {
            pending_targets: before.pending_targets.remove(global.webview_id),
            targets: before.targets.insert(
                target_id,
                renewed(before.targets[target_id], global.pipeline_id, global.page),
            ),
            ..before
        }
    } else {
        target_entered(before, global)
    };
    State {
        next_execution_context_id: (before.next_execution_context_id + 1) as i64,
        pipelines: before.pipelines.insert(
            global.pipeline_id,
            pipeline_entry(
                target_id,
                before.next_execution_context_id,
                global.label@,
                global.page.origin@,
                true,
            ),
        ),
        ..with_target
    }
}

/// The event that an execution context is gone.
pub open spec fn destroyed_event(execution_context_id: i64) -> Json {
    protocol::event_json(
        "Runtime.executionContextDestroyed"@,
        Json::Object(map!["executionContextId"@ => Json::Int(execution_context_id as int)]),
    )
}

/// The event that an execution context is there.
pub open spec fn created_event(
    execution_context_id: i64,
    origin: Seq<char>,
    name: Seq<char>,
    unique_id: Seq<char>,
    frame_id: Option<Seq<char>>,
) -> Json {
    let kind = map![
        "isDefault"@ => Json::Bool(true),
        "type"@ => Json::Text("default"@),
    ];
    let aux_data = match frame_id {
        Some(id) => kind.insert("frameId"@, Json::Text(id)),
        None => kind,
    };
    protocol::event_json(
        "Runtime.executionContextCreated"@,
        Json::Object(
            map![
                "context"@ => Json::Object(
                    map![
                        "id"@ => Json::Int(execution_context_id as int),
                        "origin"@ => Json::Text(origin),
                        "name"@ => Json::Text(name),
                        "uniqueId"@ => Json::Text(unique_id),
                        "isDefault"@ => Json::Bool(true),
                        "auxData"@ => Json::Object(aux_data),
                    ],
                ),
            ],
        ),
    )
}

/// Builds the event that an execution context is there.
pub(crate) fn execution_context_created(
    execution_context_id: i64,
    origin: &str,
    name: &str,
    unique_id: &str,
    frame_id: Option<&str>,
) -> (value: Value)
    ensures
        json::json_of(value) == created_event(
            execution_context_id,
            origin@,
            name@,
            unique_id@,
            protocol::optional_text(frame_id),
        ),
{
    let mut aux_data = Members::new().with("isDefault", json::boolean(true)).with(
        "type",
        json::string("default"),
    );
    if let Some(frame_id) = frame_id {
        aux_data = aux_data.with("frameId", json::string(frame_id));
    }
    let context = Members::new().with("id", json::integer(execution_context_id)).with(
        "origin",
        json::string(origin),
    ).with("name", json::string(name)).with("uniqueId", json::string(unique_id)).with(
        "isDefault",
        json::boolean(true),
    ).with("auxData", aux_data.value()).value();
    protocol::event(
        "Runtime.executionContextCreated",
        Members::new().with("context", context).value(),
    )
}

/// The execution context of a replaced pipeline is destroyed.
pub open spec fn replaced(
    before: State,
    previous: Option<u64>,
    pipeline_id: u64,
    after: State,
) -> bool {
    match previous {
        Some(gone) => if gone != pipeline_id && before.pipelines.contains_key(gone) {
            let pipeline = before.pipelines[gone];
            model::announced(
                State { pipelines: before.pipelines.remove(gone), ..before },
                pipeline.browsing_context_id,
                Audience::Runtime,
                destroyed_event(pipeline.execution_context_id),
                after,
            )
        } else {
            after == before
        },
        None => after == before,
    }
}

/// What is told of a new global once it is entered: connections that asked for
/// it learn of a new target, the context of the replaced pipeline is
/// destroyed, the new one created, and a new target is attached where that was
/// asked for.
pub open spec fn global_told(
    entered: State,
    previous: Option<u64>,
    global: NewGlobal,
    execution_context_id: i64,
    told: State,
    destroyed: State,
    created: State,
    after: State,
) -> bool {
    let target_id = global.browsing_context_id;
    &&& if previous is None {
        discovered(
            entered,
            model::target_event("Target.targetCreated"@, entered.target_info(target_id)),
            told,
        )
    } else {
        told == entered
    }
    &&& replaced(told, previous, global.pipeline_id, destroyed)
    &&& model::announced(
        destroyed,
        target_id,
        Audience::Runtime,
        created_event(
            execution_context_id,
            global.page.origin@,
            global.page.title@,
            global.label@,
            Some(destroyed.targets[target_id].target_id_string),
        ),
        created,
    )
    &&& if previous is None {
        auto_attached(created, target_id, after)
    } else {
        after == created
    }
}

/// What a new global leads to. That of a worker leads to nothing.
pub open spec fn new_global_step(before: State, global: NewGlobal, after: State) -> bool {
    if global.is_worker {
        after == before
    } else {
        exists|told: State, destroyed: State, created: State| #[trigger]
            global_told(
                global_entered(before, global),
                previous_pipeline(before, global.browsing_context_id),
                global,
                before.next_execution_context_id,
                told,
                destroyed,
                created,
                after,
            )
    }
}

/// Builds an event about a target.
pub(crate) fn target_event(method: &str, target_info: Value) -> (value: Value)
    ensures
        json::json_of(value) == model::target_event(method@, json::json_of(target_info)),
{
    protocol::event(method, Members::new().with("targetInfo", target_info).value())
}

impl CdpServer {
    /// The connections that asked for the subscription.
    fn subscribed_connections(&self, subscription: Subscription) -> (ids: Vec<u64>)
        ensures
            fxmap::lists(ids@, subscribers(self@.connections, subscription)),
            ids@.len() <= self@.connections.dom().len(),
    {
        let ghost wanted = |connection: CdpConnection| subscribed(connection, subscription);
        let holds = |connection: &CdpConnection| -> (result: bool)
            ensures
                result == subscribed(*connection, subscription),
        {
            match subscription {
                Subscription::Discovery => connection.target_discovery,
                Subscription::AutoAttach => connection.auto_attach,
            }
        };
        let ids = fxmap::fx_keys_where(&self.connections, holds, Ghost(wanted));
        assert(fxmap::selected(self@.connections, wanted) =~= subscribers(
            self@.connections,
            subscription,
        ));
        assert(fxmap::views(ids@) =~= ids@);
        ids
    }

    /// Tells the connections that asked for target discovery.
    fn send_to_discoverers(&mut self, message: Value)
        ensures
            discovered(old(self)@, json::json_of(message), final(self)@),
    {
        let ids = self.subscribed_connections(Subscription::Discovery);
        let ghost before = self@;
        let ghost told = json::json_of(message);
        let mut i: usize = 0;
        assert(before.outbox + to_each(ids@.take(0), told) =~= before.outbox);
        while i < ids.len()
            invariant
                i <= ids@.len(),
                told == json::json_of(message),
                self@ == (State {
                    outbox: before.outbox + to_each(ids@.take(i as int), told),
                    ..before
                }),
            decreases ids@.len() - i,
        {
            self.send_to_connection(ids[i], message.clone());
            i += 1;
            assert(before.outbox + to_each(ids@.take(i as int), told) =~= (before.outbox + to_each(
                ids@.take(i - 1),
                told,
            )).push((ids@[i - 1], told)));
        }
        assert(ids@.take(i as int) =~= ids@);
    }

    /// Attaches a target to the connections that asked for it.
    fn auto_attach(&mut self, target_id: u64)
        requires
            old(self)@.next_session_number + old(self)@.connections.dom().len() <= u64::MAX,
        ensures
            auto_attached(old(self)@, target_id, final(self)@),
    {
        let ids = self.subscribed_connections(Subscription::AutoAttach);
        let ghost before = self@;
        let mut i: usize = 0;
        while i < ids.len()
            invariant
                i <= ids@.len(),
                before.next_session_number + ids@.len() <= u64::MAX,
                self@ == attach_each(before, ids@.take(i as int), target_id),
                self@.next_session_number <= before.next_session_number + i,
            decreases ids@.len() - i,
        {
            self.attach_session(ids[i], target_id);
            i += 1;
            assert(ids@.take(i as int).drop_last() =~= ids@.take(i - 1));
        }
        assert(ids@.take(i as int) =~= ids@);
    }

    /// Enters the target of a global that is not known yet.
    fn enter_target(&mut self, global: &NewGlobal)
        requires
            old(self)@.next_target_number < u64::MAX,
        ensures
            final(self)@ == target_entered(old(self)@, *global),
    {
        // A target id may have been set aside by `Target.createTarget`.
        let set_aside = fxmap::fx_remove(&mut self.pending_targets, &global.webview_id);
        let was_set_aside = set_aside.is_some();
        let id = match set_aside {
            Some(id) => id,
            None => {
                let id = page_id(self.next_target_number);
                self.next_target_number = self.next_target_number + 1;
                id
            },
        };
        fxmap::fx_insert(&mut self.target_ids, id.clone(), global.browsing_context_id);
        fxmap::fx_insert(
            &mut self.targets,
            global.browsing_context_id,
            CdpTarget {
                target_id_string: id.clone(),
                webview_id: global.webview_id,
                title: global.page.title.clone(),
                url: global.page.url.clone(),
                origin: global.page.origin.clone(),
                loading: false,
                current_pipeline: Some(global.pipeline_id),
            },
        );
        // The target is attachable from this point on: release the
        // `Target.createTarget` reply that was held back for it.
        if was_set_aside {
            if let Some(pending) = fxmap::fx_remove(
                &mut self.pending_create_replies,
                &global.webview_id,
            ) {
                let result = Members::new().with("targetId", json::string(id.as_str())).value();
                self.send_reply_to_connection(pending.connection_id, pending.id, result);
            } else {
                assert(self@.pending_create_replies =~= old(self)@.pending_create_replies);
            }
        }
    }

    /// Enters a global, with its target and its pipeline.
    fn enter_global(&mut self, global: &NewGlobal)
        requires
            old(self)@.next_target_number < u64::MAX,
            old(self)@.next_execution_context_id < i64::MAX,
        ensures
            final(self)@ == global_entered(old(self)@, *global),
    {
        let execution_context_id = self.next_execution_context_id;
        self.next_execution_context_id = execution_context_id + 1;
        let target_id = global.browsing_context_id;
        if let Some(target) = fxmap::fx_remove(&mut self.targets, &target_id) {
            let mut target = target;
            target.current_pipeline = Some(global.pipeline_id);
            target.title = global.page.title.clone();
            target.url = global.page.url.clone();
            target.origin = global.page.origin.clone();
            fxmap::fx_insert(&mut self.targets, target_id, target);
            assert(self@.targets =~= old(self)@.targets.insert(
                target_id,
                renewed(old(self)@.targets[target_id], global.pipeline_id, global.page),
            ));
            fxmap::fx_remove(&mut self.pending_targets, &global.webview_id);
        } else {
            assert(self@.targets =~= old(self)@.targets);
            self.enter_target(global);
        }
        fxmap::fx_insert(
            &mut self.pipelines,
            global.pipeline_id,
            CdpPipeline {
                browsing_context_id: target_id,
                execution_context_id,
                label: global.label.clone(),
                origin: global.page.origin.clone(),
                ready: true,
            },
        );
    }

    /// Destroys the execution context of a replaced pipeline.
    fn replace_pipeline(&mut self, previous: Option<u64>, pipeline_id: u64)
        ensures
            replaced(old(self)@, previous, pipeline_id, final(self)@),
    {
        let Some(gone) = previous else {
            return;
        };
        if gone == pipeline_id {
            return;
        }
        if let Some(pipeline) = fxmap::fx_remove(&mut self.pipelines, &gone) {
            let params = Members::new().with(
                "executionContextId",
                json::integer(pipeline.execution_context_id),
            ).value();
            self.send_to_target_sessions(
                pipeline.browsing_context_id,
                Audience::Runtime,
                protocol::event("Runtime.executionContextDestroyed", params),
            );
        } else {
            assert(self@.pipelines =~= old(self)@.pipelines);
        }
    }

    /// Handles a new script global: enters it, and tells the clients.
    pub(crate) fn handle_new_global(&mut self, global: &NewGlobal)
        requires
            old(self)@.room(),
        ensures
            new_global_step(old(self)@, *global, final(self)@),
    {
        if global.is_worker {
            return;
        }
        let target_id = global.browsing_context_id;
        let execution_context_id = self.next_execution_context_id;
        let previous = match fxmap::fx_get(&self.targets, &target_id) {
            Some(target) => target.current_pipeline,
            None => None,
        };
        self.enter_global(global);
        let ghost entered = self@;

        // Notify connections that asked for target discovery about the new
        // (or first observed) target.
        if previous.is_none() {
            let info = self.target_info_json(target_id);
            self.send_to_discoverers(target_event("Target.targetCreated", info));
        }
        let ghost told = self@;

        // Destroy the execution context of the replaced pipeline and create
        // the new one for every attached session.
        self.replace_pipeline(previous, global.pipeline_id);
        let ghost destroyed = self@;
        let target_id_string = match fxmap::fx_get(&self.targets, &target_id) {
            Some(target) => target.target_id_string.clone(),
            None => String::new(),
        };
        let created = execution_context_created(
            execution_context_id,
            global.page.origin.as_str(),
            global.page.title.as_str(),
            global.label.as_str(),
            Some(target_id_string.as_str()),
        );
        self.send_to_target_sessions(target_id, Audience::Runtime, created);
        let ghost created = self@;

        // Auto-attach clients to newly discovered targets.
        if previous.is_none() {
            self.auto_attach(target_id);
        }
        assert(global_told(
            entered,
            previous,
            *global,
            execution_context_id,
            told,
            destroyed,
            created,
            self@,
        ));
    }
}

/// The target id of a number.
pub(crate) fn page_id(number: u64) -> (id: String)
    ensures
        id@ == model::page_id(number),
{
    let mut id = "page-".to_string();
    id.push_str(text::decimal_text(number).as_str());
    id
}

/// A target starts to load a document.
pub open spec fn loading_started(target: Target, url: Seq<char>, origin: Seq<char>) -> Target {
    Target { loading: true, url, origin, ..target }
}

/// An event about the frame of a target.
pub open spec fn frame_event(method: Seq<char>, frame_id: Seq<char>) -> Json {
    protocol::event_json(method, Json::Object(map!["frameId"@ => Json::Text(frame_id)]))
}

/// Builds an event about the frame of a target.
pub(crate) fn frame_event_json(method: &str, frame_id: &str) -> (value: Value)
    ensures
        json::json_of(value) == frame_event(method@, frame_id@),
{
    protocol::event(method, Members::new().with("frameId", json::string(frame_id)).value())
}

/// The event that a frame shows a document.
pub open spec fn navigated_event(frame_id: Seq<char>, url: Seq<char>, origin: Seq<char>) -> Json {
    protocol::event_json(
        "Page.frameNavigated"@,
        Json::Object(
            map![
                "frame"@ => Json::Object(
                    map![
                        "id"@ => Json::Text(frame_id),
                        "loaderId"@ => Json::Text(""@),
                        "url"@ => Json::Text(url),
                        "domainAndRegistry"@ => Json::Text(""@),
                        "securityOrigin"@ => Json::Text(origin),
                        "mimeType"@ => Json::Text("text/html"@),
                    ],
                ),
                "type"@ => Json::Text("Navigation"@),
            ],
        ),
    )
}

/// Builds the event that a frame shows a document.
pub(crate) fn navigated_event_json(frame_id: &str, url: &str, origin: &str) -> (value: Value)
    ensures
        json::json_of(value) == navigated_event(frame_id@, url@, origin@),
{
    let frame = Members::new().with("id", json::string(frame_id)).with(
        "loaderId",
        json::string(""),
    ).with("url", json::string(url)).with("domainAndRegistry", json::string("")).with(
        "securityOrigin",
        json::string(origin),
    ).with("mimeType", json::string("text/html")).value();
    let params = Members::new().with("frame", frame).with(
        "type",
        json::string("Navigation"),
    ).value();
    protocol::event("Page.frameNavigated", params)
}

/// What is told of the start of a navigation.
pub open spec fn start_told(
    entered: State,
    target_id: u64,
    started: State,
    after: State,
) -> bool {
    &&& model::announced(
        entered,
        target_id,
        Audience::Page,
        frame_event("Page.frameStartedLoading"@, entered.frame_id(target_id)),
        started,
    )
    &&& model::announced(
        started,
        target_id,
        Audience::Page,
        model::target_event("Target.targetInfoChanged"@, entered.target_info(target_id)),
        after,
    )
}

/// What the start of a navigation leads to. Of a target that is not known it
/// leads to nothing.
pub open spec fn navigation_start_step(
    before: State,
    target_id: u64,
    url: Seq<char>,
    origin: Seq<char>,
    after: State,
) -> bool {
    if before.targets.contains_key(target_id) {
        exists|started: State| #[trigger]
            start_told(
                State {
                    targets: before.targets.insert(
                        target_id,
                        loading_started(before.targets[target_id], url, origin),
                    ),
                    ..before
                },
                target_id,
                started,
                after,
            )
    } else {
        after == before
    }
}

/// The end of a navigation.
#[derive(Debug)]
pub struct NavigationStop {
    pub browsing_context_id: u64,
    pub pipeline_id: u64,
    /// The name that tells the pipeline from all others.
    pub label: String,
    pub page: PageInfo,
    /// The time, in seconds.
    pub time: Value,
}

/// A navigation is over: its document is entered, and its pipeline where it is
/// not known yet. Without a script channel, evaluation is unavailable until
/// the global shows up.
pub open spec fn stop_entered(before: State, stop: NavigationStop) -> State {
    let target_id = stop.browsing_context_id;
    let targets = before.targets.insert(
        target_id,
        Target {
            loading: false,
            ..renewed(before.targets[target_id], stop.pipeline_id, stop.page)
        },
    );
    if before.pipelines.contains_key(stop.pipeline_id) {
        State { targets, ..before }
    } else {
        State {
            targets,
            next_execution_context_id: (before.next_execution_context_id + 1) as i64,
            pipelines: before.pipelines.insert(
                stop.pipeline_id,
                pipeline_entry(
                    target_id,
                    before.next_execution_context_id,
                    stop.label@,
                    stop.page.origin@,
                    false,
                ),
            ),
            ..before
        }
    }
}

/// The event that a document is loaded.
pub open spec fn load_event(time: Json) -> Json {
    protocol::event_json("Page.loadEventFired"@, Json::Object(map!["timestamp"@ => time]))
}

/// What is told of the end of a navigation.
pub open spec fn stop_told(
    entered: State,
    stop: NavigationStop,
    navigated: State,
    stopped: State,
    after: State,
) -> bool {
    let target_id = stop.browsing_context_id;
    let frame_id = entered.frame_id(target_id);
    &&& model::announced(
        entered,
        target_id,
        Audience::Page,
        navigated_event(frame_id, stop.page.url@, stop.page.origin@),
        navigated,
    )
    &&& model::announced(
        navigated,
        target_id,
        Audience::Page,
        frame_event("Page.frameStoppedLoading"@, frame_id),
        stopped,
    )
    &&& model::announced(
        stopped,
        target_id,
        Audience::Page,
        load_event(json::json_of(stop.time)),
        after,
    )
}

/// What the end of a navigation leads to. Of a target that is not known it
/// leads to nothing.
pub open spec fn navigation_stop_step(before: State, stop: NavigationStop, after: State) -> bool {
    if before.targets.contains_key(stop.browsing_context_id) {
        exists|navigated: State, stopped: State| #[trigger]
            stop_told(stop_entered(before, stop), stop, navigated, stopped, after)
    } else {
        after == before
    }
}

/// A message of the console API.
pub struct ConsoleMessage {
    pub level: protocol::ConsoleLogLevel,
    pub arguments: Vec<protocol::DebuggerValue>,
    pub filename: String,
    pub line_number: u32,
    /// The time, in milliseconds.
    pub time_stamp: u64,
    /// The same time, in seconds.
    pub seconds: Value,
    pub stacktrace: Option<Vec<protocol::StackFrame>>,
}

/// The stack trace of a console message.
pub open spec fn console_trace(message: ConsoleMessage) -> Option<Json> {
    protocol::stack_trace(
        match message.stacktrace {
            Some(frames) => Some(frames@),
            None => None,
        },
    )
}

/// The members with a stack trace, if there is one.
pub open spec fn with_trace(members: Map<Seq<char>, Json>, trace: Option<Json>) -> Json {
    Json::Object(
        match trace {
            Some(json) => members.insert("stackTrace"@, json),
            None => members,
        },
    )
}

/// The `Runtime.consoleAPICalled` event of a console message.
pub open spec fn console_event(message: ConsoleMessage, execution_context_id: i64) -> Json {
    protocol::event_json(
        "Runtime.consoleAPICalled"@,
        with_trace(
            map![
                "type"@ => Json::Text(protocol::console_type(message.level)),
                "args"@ => Json::Array(
                    message.arguments@.map_values(
                        |value: protocol::DebuggerValue| protocol::remote_object(value),
                    ),
                ),
                "executionContextId"@ => Json::Int(execution_context_id as int),
                "timestamp"@ => json::json_of(message.seconds),
            ],
            console_trace(message),
        ),
    )
}

/// The text of a console message: its arguments, with spaces between them.
pub open spec fn console_text(message: ConsoleMessage) -> Seq<char> {
    text::joined(
        message.arguments@.map_values(
            |value: protocol::DebuggerValue| protocol::plain_text(value),
        ),
        " "@,
    )
}

/// The members of a log entry.
pub open spec fn entry_members(
    source: Seq<char>,
    level: Seq<char>,
    message: Seq<char>,
    time_stamp: u64,
    url: Seq<char>,
    line_number: u32,
) -> Map<Seq<char>, Json> {
    map![
        "source"@ => Json::Text(source),
        "level"@ => Json::Text(level),
        "text"@ => Json::Text(message),
        "timestamp"@ => Json::Int(time_stamp as int),
        "url"@ => Json::Text(url),
        "lineNumber"@ => Json::Int(protocol::zero_based(line_number)),
    ]
}

/// The `Log.entryAdded` event of a console message.
pub open spec fn console_entry(message: ConsoleMessage) -> Json {
    protocol::event_json(
        "Log.entryAdded"@,
        with_trace(
            entry_members(
                "console-api"@,
                protocol::console_severity(message.level),
                console_text(message),
                message.time_stamp,
                message.filename@,
                message.line_number,
            ),
            console_trace(message),
        ),
    )
}

/// What is told of a console message.
pub open spec fn console_told(
    before: State,
    pipeline: Pipeline,
    message: ConsoleMessage,
    called: State,
    after: State,
) -> bool {
    &&& model::announced(
        before,
        pipeline.browsing_context_id,
        Audience::Runtime,
        console_event(message, pipeline.execution_context_id),
        called,
    )
    &&& model::announced(
        called,
        pipeline.browsing_context_id,
        Audience::Log,
        console_entry(message),
        after,
    )
}

/// What a console message leads to. In a pipeline that is not known it leads
/// to nothing.
pub open spec fn console_step(
    before: State,
    pipeline_id: u64,
    message: ConsoleMessage,
    after: State,
) -> bool {
    if before.pipelines.contains_key(pipeline_id) {
        exists|called: State| #[trigger]
            console_told(before, before.pipelines[pipeline_id], message, called, after)
    } else {
        after == before
    }
}

/// What clearing the console leads to.
pub open spec fn clear_console_step(before: State, pipeline_id: u64, after: State) -> bool {
    if before.pipelines.contains_key(pipeline_id) {
        model::announced(
            before,
            before.pipelines[pipeline_id].browsing_context_id,
            Audience::Runtime,
            protocol::event_json("Runtime.consoleCleared"@, model::nothing()),
            after,
        )
    } else {
        after == before
    }
}

/// A target gets a title.
pub open spec fn titled(state: State, target_id: u64, title: Seq<char>) -> State {
    State {
        targets: state.targets.insert(
            target_id,
            Target { title, ..state.targets[target_id] },
        ),
        ..state
    }
}

/// What a change of the title leads to. Of a pipeline or a target that is not
/// known it leads to nothing.
pub open spec fn title_step(
    before: State,
    pipeline_id: u64,
    title: Seq<char>,
    after: State,
) -> bool {
    let target_id = before.pipelines[pipeline_id].browsing_context_id;
    if before.pipelines.contains_key(pipeline_id) && before.targets.contains_key(target_id) {
        let changed = titled(before, target_id, title);
        model::announced(
            changed,
            target_id,
            Audience::RuntimeOrPage,
            model::target_event("Target.targetInfoChanged"@, changed.target_info(target_id)),
            after,
        )
    } else {
        after == before
    }
}

/// A script error.
#[derive(Debug)]
pub struct PageError {
    pub error_message: String,
    pub source_name: String,
    pub line_number: u32,
    pub time_stamp: u64,
}

/// What a script error leads to.
pub open spec fn page_error_step(
    before: State,
    pipeline_id: u64,
    error: PageError,
    after: State,
) -> bool {
    if before.pipelines.contains_key(pipeline_id) {
        model::announced(
            before,
            before.pipelines[pipeline_id].browsing_context_id,
            Audience::Log,
            protocol::event_json(
                "Log.entryAdded"@,
                Json::Object(
                    entry_members(
                        "javascript"@,
                        "error"@,
                        error.error_message@,
                        error.time_stamp,
                        error.source_name@,
                        error.line_number,
                    ),
                ),
            ),
            after,
        )
    } else {
        after == before
    }
}

/// The members of a log entry.
fn entry_json(
    source: &str,
    level: &str,
    message: &str,
    time_stamp: u64,
    url: &str,
    line_number: u32,
) -> (members: Members)
    ensures
        members@ == entry_members(source@, level@, message@, time_stamp, url@, line_number),
{
    Members::new().with("source", json::string(source)).with("level", json::string(level)).with(
        "text",
        json::string(message),
    ).with("timestamp", json::unsigned(time_stamp)).with("url", json::string(url)).with(
        "lineNumber",
        json::unsigned(line_number.saturating_sub(1) as u64),
    )
}

/// The stack trace of a console message.
fn console_trace_json(message: &ConsoleMessage) -> (trace: Option<Value>)
    ensures
        match trace {
            Some(value) => console_trace(*message) == Some(json::json_of(value)),
            None => console_trace(*message) is None,
        },
{
    match &message.stacktrace {
        Some(frames) => protocol::stack_trace_to_json(Some(frames.as_slice())),
        None => None,
    }
}

/// The arguments of a console message as remote objects, and as one text.
fn console_arguments(message: &ConsoleMessage) -> (result: (Vec<Value>, String))
    ensures
        json::jsons(result.0@) == message.arguments@.map_values(
            |value: protocol::DebuggerValue| protocol::remote_object(value),
        ),
        result.1@ == console_text(*message),
{
    let ghost objects = message.arguments@.map_values(
        |value: protocol::DebuggerValue| protocol::remote_object(value),
    );
    let ghost plain = message.arguments@.map_values(
        |value: protocol::DebuggerValue| protocol::plain_text(value),
    );
    let mut arguments: Vec<Value> = Vec::new();
    let mut parts: Vec<String> = Vec::new();
    let mut i: usize = 0;
    assert(json::jsons(arguments@) =~= objects.take(0));
    assert(text::texts(parts@) =~= plain.take(0));
    while i < message.arguments.len()
        invariant
            i <= message.arguments@.len(),
            objects == message.arguments@.map_values(
                |value: protocol::DebuggerValue| protocol::remote_object(value),
            ),
            plain == message.arguments@.map_values(
                |value: protocol::DebuggerValue| protocol::plain_text(value),
            ),
            json::jsons(arguments@) == objects.take(i as int),
            text::texts(parts@) == plain.take(i as int),
        decreases message.arguments@.len() - i,
    {
        let ghost done = arguments@;
        let ghost said = parts@;
        arguments.push(protocol::debugger_value_to_remote_object(&message.arguments[i]));
        parts.push(protocol::debugger_value_to_text(&message.arguments[i]));
        assert(json::jsons(arguments@) =~= json::jsons(done).push(objects[i as int]));
        assert(text::texts(parts@) =~= text::texts(said).push(plain[i as int]));
        i += 1;
        assert(objects.take(i as int) =~= objects.take(i - 1).push(objects[i - 1]));
        assert(plain.take(i as int) =~= plain.take(i - 1).push(plain[i - 1]));
    }
    assert(objects.take(i as int) =~= objects);
    assert(plain.take(i as int) =~= plain);
    let joined = text::join(&parts, " ");
    (arguments, joined)
}

impl CdpServer {
    /// Handles the start of a navigation.
    pub(crate) fn handle_navigation_start(&mut self, target_id: u64, url: &str, origin: &str)
        ensures
            navigation_start_step(old(self)@, target_id, url@, origin@, final(self)@),
    {
        let Some(target) = fxmap::fx_remove(&mut self.targets, &target_id) else {
            assert(self@.targets =~= old(self)@.targets);
            return;
        };
        let mut target = target;
        target.loading = true;
        target.url = url.to_string();
        target.origin = origin.to_string();
        let target_id_string = target.target_id_string.clone();
        fxmap::fx_insert(&mut self.targets, target_id, target);
        assert(self@.targets =~= old(self)@.targets.insert(
            target_id,
            loading_started(old(self)@.targets[target_id], url@, origin@),
        ));
        let ghost entered = self@;
        let target_info = self.target_info_json(target_id);
        self.send_to_target_sessions(
            target_id,
            Audience::Page,
            frame_event_json("Page.frameStartedLoading", target_id_string.as_str()),
        );
        let ghost started = self@;
        self.send_to_target_sessions(
            target_id,
            Audience::Page,
            target_event("Target.targetInfoChanged", target_info),
        );
        assert(start_told(entered, target_id, started, self@));
    }

    /// Handles the end of a navigation.
    pub(crate) fn handle_navigation_stop(&mut self, stop: &NavigationStop)
        requires
            old(self)@.next_execution_context_id < i64::MAX,
        ensures
            navigation_stop_step(old(self)@, *stop, final(self)@),
    {
        let target_id = stop.browsing_context_id;
        let Some(target) = fxmap::fx_remove(&mut self.targets, &target_id) else {
            assert(self@.targets =~= old(self)@.targets);
            return;
        };
        let mut target = target;
        target.loading = false;
        target.title = stop.page.title.clone();
        target.url = stop.page.url.clone();
        target.origin = stop.page.origin.clone();
        target.current_pipeline = Some(stop.pipeline_id);
        let target_id_string = target.target_id_string.clone();
        fxmap::fx_insert(&mut self.targets, target_id, target);
        assert(self@.targets =~= old(self)@.targets.insert(
            target_id,
            Target {
                loading: false,
                ..renewed(old(self)@.targets[target_id], stop.pipeline_id, stop.page)
            },
        ));

        // Make sure the pipeline is known even if its global has not shown up
        // yet.
        if fxmap::fx_get(&self.pipelines, &stop.pipeline_id).is_none() {
            let execution_context_id = self.next_execution_context_id;
            self.next_execution_context_id = execution_context_id + 1;
            fxmap::fx_insert(
                &mut self.pipelines,
                stop.pipeline_id,
                CdpPipeline {
                    browsing_context_id: target_id,
                    execution_context_id,
                    label: stop.label.clone(),
                    origin: stop.page.origin.clone(),
                    ready: false,
                },
            );
        }
        let ghost entered = self@;
        assert(entered =~= stop_entered(old(self)@, *stop));
        self.send_to_target_sessions(
            target_id,
            Audience::Page,
            navigated_event_json(
                target_id_string.as_str(),
                stop.page.url.as_str(),
                stop.page.origin.as_str(),
            ),
        );
        let ghost navigated = self@;
        self.send_to_target_sessions(
            target_id,
            Audience::Page,
            frame_event_json("Page.frameStoppedLoading", target_id_string.as_str()),
        );
        let ghost stopped = self@;
        let params = Members::new().with("timestamp", stop.time.clone()).value();
        self.send_to_target_sessions(
            target_id,
            Audience::Page,
            protocol::event("Page.loadEventFired", params),
        );
        assert(stop_told(entered, *stop, navigated, stopped, self@));
    }

    /// Handles a message of the console API.
    pub(crate) fn handle_console_api(&mut self, pipeline_id: u64, message: &ConsoleMessage)
        ensures
            console_step(old(self)@, pipeline_id, *message, final(self)@),
    {
        let Some(pipeline) = fxmap::fx_get(&self.pipelines, &pipeline_id) else {
            return;
        };
        let browsing_context_id = pipeline.browsing_context_id;
        let execution_context_id = pipeline.execution_context_id;
        let (arguments, text) = console_arguments(message);

        let mut called = Members::new().with(
            "type",
            json::string(protocol::console_log_level_to_cdp_type(&message.level)),
        ).with("args", json::array(arguments)).with(
            "executionContextId",
            json::integer(execution_context_id),
        ).with("timestamp", message.seconds.clone());
        if let Some(trace) = console_trace_json(message) {
            called = called.with("stackTrace", trace);
        }
        self.send_to_target_sessions(
            browsing_context_id,
            Audience::Runtime,
            protocol::event("Runtime.consoleAPICalled", called.value()),
        );
        let ghost told = self@;

        let mut entry = entry_json(
            "console-api",
            protocol::console_log_level_to_cdp_level(&message.level),
            text.as_str(),
            message.time_stamp,
            message.filename.as_str(),
            message.line_number,
        );
        if let Some(trace) = console_trace_json(message) {
            entry = entry.with("stackTrace", trace);
        }
        self.send_to_target_sessions(
            browsing_context_id,
            Audience::Log,
            protocol::event("Log.entryAdded", entry.value()),
        );
        assert(console_told(
            old(self)@,
            old(self)@.pipelines[pipeline_id],
            *message,
            told,
            self@,
        ));
    }

    /// Handles the clearing of the console.
    pub(crate) fn handle_clear_console(&mut self, pipeline_id: u64)
        ensures
            clear_console_step(old(self)@, pipeline_id, final(self)@),
    {
        let Some(pipeline) = fxmap::fx_get(&self.pipelines, &pipeline_id) else {
            return;
        };
        let browsing_context_id = pipeline.browsing_context_id;
        self.send_to_target_sessions(
            browsing_context_id,
            Audience::Runtime,
            protocol::event("Runtime.consoleCleared", server::nothing()),
        );
    }

    /// Handles a change of the title of a document.
    pub(crate) fn handle_title_changed(&mut self, pipeline_id: u64, title: &str)
        ensures
            title_step(old(self)@, pipeline_id, title@, final(self)@),
    {
        let Some(pipeline) = fxmap::fx_get(&self.pipelines, &pipeline_id) else {
            return;
        };
        let target_id = pipeline.browsing_context_id;
        let Some(target) = fxmap::fx_remove(&mut self.targets, &target_id) else {
            assert(self@.targets =~= old(self)@.targets);
            return;
        };
        let mut target = target;
        target.title = title.to_string();
        fxmap::fx_insert(&mut self.targets, target_id, target);
        assert(self@.targets =~= titled(old(self)@, target_id, title@).targets);
        let target_info = self.target_info_json(target_id);
        self.send_to_target_sessions(
            target_id,
            Audience::RuntimeOrPage,
            target_event("Target.targetInfoChanged", target_info),
        );
    }

    /// Handles a script error.
    pub(crate) fn handle_page_error(&mut self, pipeline_id: u64, error: &PageError)
        ensures
            page_error_step(old(self)@, pipeline_id, *error, final(self)@),
    {
        let Some(pipeline) = fxmap::fx_get(&self.pipelines, &pipeline_id) else {
            return;
        };
        let browsing_context_id = pipeline.browsing_context_id;
        let entry = entry_json(
            "javascript",
            "error",
            error.error_message.as_str(),
            error.time_stamp,
            error.source_name.as_str(),
            error.line_number,
        );
        self.send_to_target_sessions(
            browsing_context_id,
            Audience::Log,
            protocol::event("Log.entryAdded", entry.value()),
        );
    }
}

} // verus!
