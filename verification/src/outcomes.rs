//! What comes of the requests to the browser, and how the commands that led to
//! them are answered.
use serde_json::Value;
use vstd::prelude::*;

use crate::browser;
use crate::control;
use crate::dom;
use crate::dom::NodeTree;
use crate::encoding;
use crate::events;
use crate::fxmap;
use crate::invariants;
use crate::json;
use crate::json::Json;
use crate::json::Members;
use crate::model;
use crate::model::CdpSession;
use crate::model::PendingReply;
use crate::model::State;
use crate::model::Ticket;
use crate::model::TicketView;
use crate::protocol;
use crate::protocol::CdpError;
use crate::protocol::DebuggerValue;
use crate::server;
use crate::server::CdpServer;
use crate::server::Delivery;
use crate::session;
use crate::text;

verus! {

/// What came of opening a new tab.
#[derive(Clone, Copy, Debug, Eq, PartialEq, Structural)]
pub enum CreateOutcome {
    InvalidUrl,
    NoChannel,
    Refused,
    /// The new web view.
    Created(u64),
}

/// `Target.createTarget` after the browser tried. The id of the new target is
/// set aside, and the reply held back, until its browsing context shows up.
pub open spec fn create_finished(
    before: State,
    connection_id: u64,
    id: i64,
    outcome: CreateOutcome,
) -> State {
    match outcome {
        CreateOutcome::InvalidUrl => before.refuse(
            connection_id,
            id,
            protocol::ERROR_INVALID_REQUEST,
            "invalid 'url' parameter"@,
        ),
        CreateOutcome::NoChannel => before.refuse(
            connection_id,
            id,
            protocol::ERROR_SERVER_ERROR,
            "Could not create a channel for the new target"@,
        ),
        CreateOutcome::Refused => before.refuse(
            connection_id,
            id,
            protocol::ERROR_SERVER_ERROR,
            "The embedder refused to create a new target"@,
        ),
        CreateOutcome::Created(webview_id) => State {
            next_target_number: (before.next_target_number + 1) as u64,
            pending_targets: before.pending_targets.insert(
                webview_id,
                model::page_id(before.next_target_number),
            ),
            pending_create_replies: before.pending_create_replies.insert(
                webview_id,
                PendingReply { connection_id, id },
            ),
            ..before
        },
    }
}

/// The sessions that are attached to a target with the given id.
pub open spec fn sessions_on(state: State, name: Seq<char>) -> Set<Seq<char>> {
    Set::new(
        |id: Seq<char>|
            state.sessions.contains_key(id) && state.targets.contains_key(
                state.sessions[id].target_id,
            ) && state.targets[state.sessions[id].target_id].target_id_string == name,
    )
}

/// `Target.closeTarget` after the browser tried. The target is going away, so
/// any session attached to it is dropped.
pub open spec fn close_finished(
    before: State,
    connection_id: u64,
    id: i64,
    target_id: Seq<char>,
    closed: bool,
) -> State {
    if closed {
        before.without_sessions(sessions_on(before, target_id)).answer(
            connection_id,
            id,
            model::nothing(),
        )
    } else {
        before.refuse(
            connection_id,
            id,
            protocol::ERROR_SERVER_ERROR,
            "Could not create a channel to close the target"@,
        )
    }
}

/// A command to a script thread, after it was sent or could not be.
pub open spec fn script_finished(before: State, ticket: TicketView, sent: bool) -> State {
    if sent {
        before.session_answer(ticket, model::nothing())
    } else {
        session::failed(before, ticket, "Target is gone"@)
    }
}

/// What came of a navigation.
#[derive(Debug)]
pub enum NavigateOutcome {
    InvalidUrl,
    /// There is no pipeline to tell.
    Unavailable(String),
    /// The script thread is gone.
    Gone,
    Sent,
}

/// The pipeline that a navigation is to be told to, or what has come of it.
pub open spec fn navigation_choice(is_url: bool, pipeline: Result<u64, String>) -> Result<
    u64,
    NavigateOutcome,
> {
    match pipeline {
        Ok(pipeline_id) if is_url => Ok(pipeline_id),
        Err(reason) if is_url => Err(NavigateOutcome::Unavailable(reason)),
        _ => Err(NavigateOutcome::InvalidUrl),
    }
}

/// Decides on a navigation: the pipeline that is to be told, or what has come of
/// it already. That the text is no URL goes before that there is no pipeline.
pub fn navigation_pipeline(is_url: bool, pipeline: Result<u64, String>) -> (result: Result<
    u64,
    NavigateOutcome,
>)
    ensures
        result == if !is_url {
            Err::<u64, NavigateOutcome>(NavigateOutcome::InvalidUrl)
        } else {
            match pipeline {
                Ok(pipeline_id) => Ok(pipeline_id),
                Err(reason) => Err(NavigateOutcome::Unavailable(reason)),
            }
        },
        result == navigation_choice(is_url, pipeline),
{
    if !is_url {
        return Err(NavigateOutcome::InvalidUrl);
    }
    match pipeline {
        Ok(pipeline_id) => Ok(pipeline_id),
        Err(reason) => Err(NavigateOutcome::Unavailable(reason)),
    }
}

/// The reply to `Page.navigate`.
pub open spec fn navigate_reply(frame_id: Seq<char>, outcome: NavigateOutcome) -> Json {
    let frame = map!["frameId"@ => Json::Text(frame_id)];
    Json::Object(
        match outcome {
            NavigateOutcome::InvalidUrl => frame.insert(
                "errorText"@,
                Json::Text("ERR_INVALID_URL"@),
            ),
            NavigateOutcome::Unavailable(reason) => frame.insert(
                "errorText"@,
                Json::Text(reason@),
            ),
            NavigateOutcome::Gone => frame.insert("errorText"@, Json::Text("Target is gone"@)),
            NavigateOutcome::Sent => frame.insert("loaderId"@, Json::Text(""@)),
        },
    )
}

/// What came of an evaluation.
pub enum EvaluateOutcome {
    NoChannel,
    /// The script thread is gone.
    Gone,
    TimedOut,
    Replied { value: DebuggerValue, has_exception: bool, exception_message: Option<String> },
}

/// The text that there may be.
pub open spec fn optional_string(text: Option<String>) -> Option<Seq<char>> {
    match text {
        Some(t) => Some(t@),
        None => None,
    }
}

/// The reply to an evaluation.
pub open spec fn evaluate_reply(
    value: DebuggerValue,
    has_exception: bool,
    exception_message: Option<Seq<char>>,
) -> Json {
    let members = map!["result"@ => protocol::evaluated_object(value, has_exception)];
    Json::Object(
        if has_exception {
            members.insert("exceptionDetails"@, protocol::exception_json(exception_message))
        } else {
            members
        },
    )
}

/// An evaluation, after the script thread had its time.
pub open spec fn evaluate_finished(
    before: State,
    ticket: TicketView,
    outcome: EvaluateOutcome,
) -> State {
    match outcome {
        EvaluateOutcome::NoChannel => session::failed(
            before,
            ticket,
            "Could not create evaluation channel"@,
        ),
        EvaluateOutcome::Gone => session::failed(before, ticket, "Target is gone"@),
        EvaluateOutcome::TimedOut => session::failed(before, ticket, "Evaluation timed out"@),
        EvaluateOutcome::Replied { value, has_exception, exception_message } => {
            before.session_answer(
                ticket,
                evaluate_reply(value, has_exception, optional_string(exception_message)),
            )
        },
    }
}

/// What came of reading a document.
#[derive(Debug)]
pub enum DocumentOutcome {
    NoChannel,
    /// The script thread is gone.
    Gone,
    TimedOut,
    NoDocument,
    /// The document, with the children of the nodes that show them.
    Read(NodeTree),
}

/// `DOM.getDocument`, after the script thread had its time.
pub open spec fn document_finished(
    before: State,
    ticket: TicketView,
    pipeline_id: u64,
    depth: i32,
    outcome: DocumentOutcome,
) -> State {
    match outcome {
        DocumentOutcome::NoChannel => session::failed(
            before,
            ticket,
            "Could not create DOM channel"@,
        ),
        DocumentOutcome::Gone => session::failed(before, ticket, "Target is gone"@),
        DocumentOutcome::TimedOut => session::failed(
            before,
            ticket,
            "Reading the document timed out"@,
        ),
        DocumentOutcome::NoDocument => session::failed(
            before,
            ticket,
            "Could not read the document"@,
        ),
        DocumentOutcome::Read(tree) => {
            let (after, root) = dom::tree_shown(before, pipeline_id, tree, depth);
            after.session_answer(ticket, browser::single("root"@, root))
        },
    }
}

/// There are node ids for all that is shown of a document.
pub open spec fn document_fits(state: State, outcome: DocumentOutcome, depth: i32) -> bool {
    outcome matches DocumentOutcome::Read(tree) ==> state.next_node_id + dom::shown_count(
        tree,
        depth,
    ) <= i64::MAX
}

/// What came of reading the children of a node.
#[derive(Debug)]
pub enum ChildrenOutcome {
    TimedOut,
    /// The script thread is gone, or does not know the node.
    Unreadable,
    /// The children, with the children of those that show them.
    Read(Vec<NodeTree>),
}

/// The children that are shown; there are none where they cannot be read.
pub open spec fn shown_children(outcome: ChildrenOutcome) -> Seq<NodeTree> {
    match outcome {
        ChildrenOutcome::Read(children) => children@,
        _ => Seq::empty(),
    }
}

/// There are node ids for all the children that are shown.
pub open spec fn children_fit(state: State, outcome: ChildrenOutcome, depth: i32) -> bool {
    state.next_node_id + dom::shown_counts(shown_children(outcome), depth) <= i64::MAX
}

/// `DOM.requestChildNodes`, after the script thread had its time.
pub open spec fn children_finished(
    before: State,
    ticket: TicketView,
    node_id: i64,
    pipeline_id: u64,
    depth: i32,
    outcome: ChildrenOutcome,
) -> State {
    if outcome is TimedOut {
        session::failed(before, ticket, "Reading the children timed out"@)
    } else {
        let (after, nodes) = dom::trees_shown(
            before,
            pipeline_id,
            shown_children(outcome),
            depth,
        );
        session::children_given(after, ticket, node_id, nodes)
    }
}

/// What came of computing a layout.
#[derive(Debug)]
pub enum LayoutOutcome {
    NoChannel,
    /// The script thread is gone.
    Gone,
    TimedOut,
    NoLayout,
    /// The size of the box, as JSON numbers.
    Computed { width: Value, height: Value },
}

/// The corners of a box that is anchored at the origin.
pub open spec fn quad(width: Json, height: Json) -> Json {
    let zero = Json::Float(0);
    Json::Array(seq![zero, zero, width, zero, width, height, zero, height])
}

/// The reply to `DOM.getBoxModel`. The box is anchored at the origin because
/// the layout information does not include the absolute position of the node.
pub open spec fn box_reply(width: Json, height: Json) -> Json {
    let corners = quad(width, height);
    browser::single(
        "model"@,
        Json::Object(
            map![
                "content"@ => corners,
                "padding"@ => corners,
                "border"@ => corners,
                "margin"@ => corners,
                "width"@ => width,
                "height"@ => height,
            ],
        ),
    )
}

/// `DOM.getBoxModel`, after the script thread had its time.
pub open spec fn layout_finished(before: State, ticket: TicketView, outcome: LayoutOutcome) -> State {
    match outcome {
        LayoutOutcome::NoChannel => session::failed(
            before,
            ticket,
            "Could not create layout channel"@,
        ),
        LayoutOutcome::Gone => session::failed(before, ticket, "Target is gone"@),
        LayoutOutcome::TimedOut => session::failed(
            before,
            ticket,
            "Computing the box model timed out"@,
        ),
        LayoutOutcome::NoLayout => session::failed(
            before,
            ticket,
            "Could not compute the box model of the node"@,
        ),
        LayoutOutcome::Computed { width, height } => before.session_answer(
            ticket,
            box_reply(json::json_of(width), json::json_of(height)),
        ),
    }
}

/// What came of taking a screenshot.
#[derive(Debug)]
pub enum ScreenshotOutcome {
    /// It failed, for a reason.
    Failed(String),
    TimedOut,
    /// The red, green, blue and alpha bytes of the image.
    Taken { width: u32, height: u32, rgba: Vec<u8> },
}

impl ScreenshotOutcome {
    /// An image has four bytes for each pixel.
    pub open spec fn wf(self) -> bool {
        self matches ScreenshotOutcome::Taken { width, height, rgba } ==> rgba@.len() == 4 * width
            * height
    }
}

/// An image that was encoded, or could not be.
pub open spec fn image_answered(
    before: State,
    ticket: TicketView,
    file: Result<Seq<u8>, Seq<char>>,
) -> State {
    match file {
        Ok(bytes) => before.session_answer(
            ticket,
            browser::single("data"@, Json::Text(encoding::base64_text(bytes))),
        ),
        Err(error) => session::failed(
            before,
            ticket,
            "Could not encode the screenshot: "@ + error,
        ),
    }
}

/// `Page.captureScreenshot`, after the browser had its time. The image is sent
/// as a PNG file in base64.
pub open spec fn screenshot_finished(
    before: State,
    ticket: TicketView,
    outcome: ScreenshotOutcome,
) -> State {
    match outcome {
        ScreenshotOutcome::Failed(error) => session::failed(
            before,
            ticket,
            "Could not take a screenshot: "@ + error@,
        ),
        ScreenshotOutcome::TimedOut => session::failed(
            before,
            ticket,
            "Taking a screenshot timed out"@,
        ),
        ScreenshotOutcome::Taken { width, height, rgba } => image_answered(
            before,
            ticket,
            encoding::png_file(width, height, rgba@),
        ),
    }
}

impl CdpServer {
    /// Whether the numbers that are given next are free.
    pub fn has_room(&self) -> (result: bool)
        ensures
            result == self@.room(),
    {
        let targets = fxmap::fx_keys(&self.targets);
        let connections = fxmap::fx_keys(&self.connections);
        proof {
            fxmap::lemma_lists_len(fxmap::views(targets@), self@.targets.dom());
            fxmap::lemma_lists_len(fxmap::views(connections@), self@.connections.dom());
        }
        let left: u64 = u64::MAX - self.next_session_number;
        self.next_connection_id < u64::MAX && self.next_session_number < u64::MAX
            && targets.len() as u64 <= left && connections.len() as u64 <= left
            && self.next_execution_context_id < i64::MAX && self.next_target_number < u64::MAX
            && self.next_finish_number < u64::MAX
    }

    /// Whether there are node ids for all the children that are shown.
    pub fn has_node_room(&self, outcome: &ChildrenOutcome, depth: i32) -> (result: bool)
        ensures
            result == children_fit(self@, *outcome, depth),
    {
        match outcome {
            ChildrenOutcome::Read(children) => {
                let budget: u64 = (i64::MAX as i128 - self.next_node_id as i128) as u64;
                dom::spend(budget, children, depth).is_some()
            },
            _ => true,
        }
    }

    /// Whether there are node ids for all that is shown of a document.
    pub fn has_document_room(&self, outcome: &DocumentOutcome, depth: i32) -> (result: bool)
        ensures
            result == document_fits(self@, *outcome, depth),
    {
        match outcome {
            DocumentOutcome::Read(tree) => {
                if self.next_node_id == i64::MAX {
                    return false;
                }
                if dom::wants_children(&tree.info, depth) {
                    let budget: u64 = (i64::MAX as i128 - self.next_node_id as i128 - 1) as u64;
                    dom::spend(budget, &tree.children, depth).is_some()
                } else {
                    true
                }
            },
            _ => true,
        }
    }

    /// Finishes `Target.createTarget`.
    pub fn finish_create_target(
        &mut self,
        connection_id: u64,
        id: i64,
        outcome: CreateOutcome,
    ) -> (list: Vec<Delivery>)
        requires
            old(self)@.room(),
        ensures
            control::settled(
                create_finished(old(self)@, connection_id, id, outcome),
                final(self)@,
                list@,
            ),
            invariants::wf(old(self)@) ==> invariants::wf(final(self)@),
    {
        proof {
            if invariants::wf(self@) {
                invariants::law_creating_keeps_order(self@, connection_id, id, outcome);
                invariants::law_delivery_keeps_order(create_finished(self@, connection_id, id, outcome));
            }
        }
        match outcome {
            CreateOutcome::InvalidUrl => {
                self.send_error_to_connection(
                    connection_id,
                    id,
                    CdpError::invalid_params("invalid 'url' parameter"),
                );
            },
            CreateOutcome::NoChannel => {
                self.send_error_to_connection(
                    connection_id,
                    id,
                    CdpError::server("Could not create a channel for the new target"),
                );
            },
            CreateOutcome::Refused => {
                self.send_error_to_connection(
                    connection_id,
                    id,
                    CdpError::server("The embedder refused to create a new target"),
                );
            },
            CreateOutcome::Created(webview_id) => {
                let name = events::page_id(self.next_target_number);
                self.next_target_number = self.next_target_number + 1;
                fxmap::fx_insert(&mut self.pending_targets, webview_id, name);
                fxmap::fx_insert(
                    &mut self.pending_create_replies,
                    webview_id,
                    PendingReply { connection_id, id },
                );
            },
        }
        self.flush()
    }

    /// The sessions that are attached to a target with the given id.
    fn attached_sessions(&self, name: &str) -> (ids: Vec<String>)
        ensures
            fxmap::lists(fxmap::views(ids@), sessions_on(self@, name@)),
    {
        let targets = &self.targets;
        let ghost wanted = |session: CdpSession|
            fxmap::contents(*targets).contains_key(session.target_id) && fxmap::contents(
                *targets,
            )[session.target_id].target_id_string == name@;
        let holds = |session: &CdpSession| -> (result: bool)
            ensures
                result == wanted(*session),
        {
            match fxmap::fx_get(targets, &session.target_id) {
                Some(target) => text::same_text(target.target_id_string.as_str(), name),
                None => false,
            }
        };
        let ids = fxmap::fx_keys_where(&self.sessions, holds, Ghost(wanted));
        assert(fxmap::selected(self@.sessions, wanted) =~= sessions_on(self@, name@));
        ids
    }

    /// Finishes `Target.closeTarget`. `closed` says whether there was a channel
    /// to close the web view.
    pub fn finish_close_target(
        &mut self,
        connection_id: u64,
        id: i64,
        target_id: &str,
        closed: bool,
    ) -> (list: Vec<Delivery>)
        ensures
            control::settled(
                close_finished(old(self)@, connection_id, id, target_id@, closed),
                final(self)@,
                list@,
            ),
            invariants::wf(old(self)@) ==> invariants::wf(final(self)@),
    {
        proof {
            if invariants::wf(self@) {
                invariants::law_closing_keeps_order(self@, connection_id, id, target_id@, closed);
                invariants::law_delivery_keeps_order(close_finished(self@, connection_id, id, target_id@, closed));
            }
        }
        if closed {
            let ids = self.attached_sessions(target_id);
            assert(fxmap::views(ids@).to_set() =~= sessions_on(self@, target_id@));
            self.remove_sessions(&ids);
            self.send_reply_to_connection(connection_id, id, server::nothing());
        } else {
            self.send_error_to_connection(
                connection_id,
                id,
                CdpError::server("Could not create a channel to close the target"),
            );
        }
        self.flush()
    }

    /// Finishes a command to a script thread.
    pub fn finish_script(&mut self, ticket: &Ticket, sent: bool) -> (list: Vec<Delivery>)
        ensures
            control::settled(script_finished(old(self)@, ticket@, sent), final(self)@, list@),
            invariants::wf(old(self)@) ==> invariants::wf(final(self)@),
    {
        proof {
            if invariants::wf(self@) {
                invariants::lemma_outbox(self@, script_finished(self@, ticket@, sent));
                invariants::law_delivery_keeps_order(script_finished(self@, ticket@, sent));
            }
        }
        if sent {
            self.send_session_reply(ticket, server::nothing());
        } else {
            self.send_session_error(ticket, CdpError::server("Target is gone"));
        }
        self.flush()
    }

    /// Finishes `Page.navigate`.
    pub fn finish_navigate(
        &mut self,
        ticket: &Ticket,
        frame_id: &str,
        outcome: &NavigateOutcome,
    ) -> (list: Vec<Delivery>)
        ensures
            control::settled(
                old(self)@.session_answer(ticket@, navigate_reply(frame_id@, *outcome)),
                final(self)@,
                list@,
            ),
            invariants::wf(old(self)@) ==> invariants::wf(final(self)@),
    {
        proof {
            if invariants::wf(self@) {
                invariants::lemma_outbox(self@, self@.session_answer(ticket@, navigate_reply(frame_id@, *outcome)));
                invariants::law_delivery_keeps_order(self@.session_answer(ticket@, navigate_reply(frame_id@, *outcome)));
            }
        }
        let frame = Members::new().with("frameId", json::string(frame_id));
        let reply = match outcome {
            NavigateOutcome::InvalidUrl => frame.with("errorText", json::string("ERR_INVALID_URL")),
            NavigateOutcome::Unavailable(reason) => frame.with(
                "errorText",
                json::string(reason.as_str()),
            ),
            NavigateOutcome::Gone => frame.with("errorText", json::string("Target is gone")),
            NavigateOutcome::Sent => frame.with("loaderId", json::string("")),
        };
        self.send_session_reply(ticket, reply.value());
        self.flush()
    }

    /// Finishes an evaluation.
    pub fn finish_evaluate(&mut self, ticket: &Ticket, outcome: &EvaluateOutcome) -> (list: Vec<
        Delivery,
    >)
        ensures
            control::settled(evaluate_finished(old(self)@, ticket@, *outcome), final(self)@, list@),
            invariants::wf(old(self)@) ==> invariants::wf(final(self)@),
    {
        proof {
            if invariants::wf(self@) {
                invariants::lemma_outbox(self@, evaluate_finished(self@, ticket@, *outcome));
                invariants::law_delivery_keeps_order(evaluate_finished(self@, ticket@, *outcome));
            }
        }
        match outcome {
            EvaluateOutcome::NoChannel => {
                self.send_session_error(
                    ticket,
                    CdpError::server("Could not create evaluation channel"),
                );
            },
            EvaluateOutcome::Gone => {
                self.send_session_error(ticket, CdpError::server("Target is gone"));
            },
            EvaluateOutcome::TimedOut => {
                self.send_session_error(ticket, CdpError::server("Evaluation timed out"));
            },
            EvaluateOutcome::Replied { value, has_exception, exception_message } => {
                let message = match exception_message {
                    Some(message) => Some(message.as_str()),
                    None => None,
                };
                let (object, details) = protocol::evaluate_reply_to_remote_object(
                    value,
                    *has_exception,
                    message,
                );
                let mut reply = Members::new().with("result", object);
                if let Some(details) = details {
                    reply = reply.with("exceptionDetails", details);
                }
                self.send_session_reply(ticket, reply.value());
            },
        }
        self.flush()
    }

    /// Finishes `DOM.getDocument`.
    pub fn finish_document(
        &mut self,
        ticket: &Ticket,
        pipeline_id: u64,
        depth: i32,
        outcome: &DocumentOutcome,
    ) -> (list: Vec<Delivery>)
        requires
            document_fits(old(self)@, *outcome, depth),
        ensures
            control::settled(
                document_finished(old(self)@, ticket@, pipeline_id, depth, *outcome),
                final(self)@,
                list@,
            ),
            invariants::wf(old(self)@) ==> invariants::wf(final(self)@),
    {
        proof {
            if invariants::wf(self@) {
                invariants::law_document_keeps_order(self@, ticket@, pipeline_id, depth, *outcome);
                invariants::law_delivery_keeps_order(document_finished(self@, ticket@, pipeline_id, depth, *outcome));
            }
        }
        match outcome {
            DocumentOutcome::NoChannel => {
                self.send_session_error(ticket, CdpError::server("Could not create DOM channel"));
            },
            DocumentOutcome::Gone => {
                self.send_session_error(ticket, CdpError::server("Target is gone"));
            },
            DocumentOutcome::TimedOut => {
                self.send_session_error(
                    ticket,
                    CdpError::server("Reading the document timed out"),
                );
            },
            DocumentOutcome::NoDocument => {
                self.send_session_error(ticket, CdpError::server("Could not read the document"));
            },
            DocumentOutcome::Read(tree) => {
                let root = self.dom_node_json(pipeline_id, tree, depth);
                self.send_session_reply(ticket, browser::single_json("root", root));
            },
        }
        self.flush()
    }

    /// Finishes `DOM.requestChildNodes`.
    pub fn finish_children(
        &mut self,
        ticket: &Ticket,
        node_id: i64,
        pipeline_id: u64,
        depth: i32,
        outcome: &ChildrenOutcome,
    ) -> (list: Vec<Delivery>)
        requires
            children_fit(old(self)@, *outcome, depth),
        ensures
            control::settled(
                children_finished(
                    old(self)@,
                    ticket@,
                    node_id,
                    pipeline_id,
                    depth,
                    *outcome,
                ),
                final(self)@,
                list@,
            ),
            invariants::wf(old(self)@) ==> invariants::wf(final(self)@),
    {
        proof {
            if invariants::wf(self@) {
                invariants::law_children_keep_order(self@, ticket@, node_id, pipeline_id, depth, *outcome);
                invariants::law_delivery_keeps_order(children_finished(self@, ticket@, node_id, pipeline_id, depth, *outcome));
            }
        }
        match outcome {
            ChildrenOutcome::TimedOut => {
                self.send_session_error(
                    ticket,
                    CdpError::server("Reading the children timed out"),
                );
            },
            ChildrenOutcome::Unreadable => {
                let nodes: Vec<Value> = Vec::new();
                assert(json::jsons(nodes@) =~= Seq::empty());
                self.give_children(ticket, node_id, nodes);
            },
            ChildrenOutcome::Read(children) => {
                let nodes = self.dom_children_json(pipeline_id, children, depth);
                self.give_children(ticket, node_id, nodes);
            },
        }
        self.flush()
    }

    /// Finishes `DOM.getBoxModel`.
    pub fn finish_layout(&mut self, ticket: &Ticket, outcome: &LayoutOutcome) -> (list: Vec<Delivery>)
        ensures
            control::settled(layout_finished(old(self)@, ticket@, *outcome), final(self)@, list@),
            invariants::wf(old(self)@) ==> invariants::wf(final(self)@),
    {
        proof {
            if invariants::wf(self@) {
                invariants::lemma_outbox(self@, layout_finished(self@, ticket@, *outcome));
                invariants::law_delivery_keeps_order(layout_finished(self@, ticket@, *outcome));
            }
        }
        match outcome {
            LayoutOutcome::NoChannel => {
                self.send_session_error(
                    ticket,
                    CdpError::server("Could not create layout channel"),
                );
            },
            LayoutOutcome::Gone => {
                self.send_session_error(ticket, CdpError::server("Target is gone"));
            },
            LayoutOutcome::TimedOut => {
                self.send_session_error(
                    ticket,
                    CdpError::server("Computing the box model timed out"),
                );
            },
            LayoutOutcome::NoLayout => {
                self.send_session_error(
                    ticket,
                    CdpError::server("Could not compute the box model of the node"),
                );
            },
            LayoutOutcome::Computed { width, height } => {
                let model = Members::new().with("content", quad_json(width, height)).with(
                    "padding",
                    quad_json(width, height),
                ).with("border", quad_json(width, height)).with(
                    "margin",
                    quad_json(width, height),
                ).with("width", width.clone()).with("height", height.clone()).value();
                self.send_session_reply(ticket, browser::single_json("model", model));
            },
        }
        self.flush()
    }

    /// Answers with an image that was encoded, or could not be.
    pub fn answer_image(&mut self, ticket: &Ticket, file: Result<Vec<u8>, String>)
        ensures
            final(self)@ == image_answered(old(self)@, ticket@, encoding::bytes_or_error(file)),
    {
        match file {
            Ok(bytes) => {
                let data = encoding::base64(bytes.as_slice());
                self.send_session_reply(
                    ticket,
                    browser::single_json("data", json::string(data.as_str())),
                );
            },
            Err(error) => {
                let mut message = "Could not encode the screenshot: ".to_string();
                message.push_str(error.as_str());
                self.send_session_error(ticket, CdpError::server(message.as_str()));
            },
        }
    }

    /// Finishes `Page.captureScreenshot`, encoding the image as a base64 PNG.
    pub fn finish_screenshot(&mut self, ticket: &Ticket, outcome: ScreenshotOutcome) -> (list: Vec<
        Delivery,
    >)
        requires
            outcome.wf(),
        ensures
            control::settled(
                screenshot_finished(old(self)@, ticket@, outcome),
                final(self)@,
                list@,
            ),
            match outcome {
                ScreenshotOutcome::Taken { width, height, rgba } => {
                    match encoding::png_file(width, height, rgba@) {
                        Ok(file) => encoding::is_image_file(file, width, height, rgba@),
                        Err(_) => true,
                    }
                },
                _ => true,
            },
            invariants::wf(old(self)@) ==> invariants::wf(final(self)@),
    {
        proof {
            if invariants::wf(self@) {
                invariants::lemma_outbox(self@, screenshot_finished(self@, ticket@, outcome));
                invariants::law_delivery_keeps_order(screenshot_finished(self@, ticket@, outcome));
            }
        }
        match outcome {
            ScreenshotOutcome::Failed(error) => {
                let mut message = "Could not take a screenshot: ".to_string();
                message.push_str(error.as_str());
                self.send_session_error(ticket, CdpError::server(message.as_str()));
            },
            ScreenshotOutcome::TimedOut => {
                self.send_session_error(ticket, CdpError::server("Taking a screenshot timed out"));
            },
            ScreenshotOutcome::Taken { width, height, rgba } => {
                let file = encoding::png(width, height, rgba);
                self.answer_image(ticket, file);
            },
        }
        self.flush()
    }
}

/// The corners of a box that is anchored at the origin.
fn quad_json(width: &Value, height: &Value) -> (value: Value)
    ensures
        json::json_of(value) == quad(json::json_of(*width), json::json_of(*height)),
{
    let zero = json::float_zero();
    let mut corners: Vec<Value> = Vec::new();
    corners.push(zero.clone());
    corners.push(zero.clone());
    corners.push(width.clone());
    corners.push(zero.clone());
    corners.push(width.clone());
    corners.push(height.clone());
    corners.push(zero.clone());
    corners.push(height.clone());
    proof {
        let z = json::json_of(zero);
        let w = json::json_of(*width);
        let h = json::json_of(*height);
        assert(json::jsons(corners@) =~= seq![z, z, w, z, w, h, z, h]);
    }
    json::array(corners)
}

} // verus!
