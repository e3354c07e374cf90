//! What the server asks of the browser on behalf of a command. Each request is
//! performed outside; what comes of it is handed back to the server.
use serde_json::Value;
use vstd::prelude::*;

use crate::json;
use crate::json::Json;
use crate::model::Ticket;
use crate::model::TicketView;

verus! {

/// What a script thread is told.
#[derive(Clone, Copy, Debug, Eq, PartialEq, Structural)]
pub enum ScriptAction {
    Reload,
    GoBack,
    GoForward,
}

/// A rectangle in CSS pixels, of four JSON numbers.
#[derive(Debug)]
pub struct Clip {
    pub x: Value,
    pub y: Value,
    pub width: Value,
    pub height: Value,
}

/// What a [`Clip`] holds.
pub struct ClipView {
    pub x: Json,
    pub y: Json,
    pub width: Json,
    pub height: Json,
}

impl View for Clip {
    type V = ClipView;

    open spec fn view(&self) -> ClipView {
        ClipView {
            x: json::json_of(self.x),
            y: json::json_of(self.y),
            width: json::json_of(self.width),
            height: json::json_of(self.height),
        }
    }
}

/// What is asked of the browser.
#[derive(Debug)]
pub enum Request {
    /// Open a new tab for the URL, if it is one.
    CreateTarget { connection_id: u64, id: i64, url: String },
    /// Close a web view, and wait for it.
    CloseTarget { connection_id: u64, id: i64, target_id: String, webview_id: u64 },
    /// Bring a web view to the front. Nothing is to be handed back.
    Focus { webview_id: u64 },
    /// Tell a script thread.
    Script { ticket: Ticket, pipeline_id: u64, action: ScriptAction },
    /// Navigate to the URL, if it is one and there is a pipeline to tell; where
    /// there is none it is said why.
    Navigate { ticket: Ticket, frame_id: String, url: String, pipeline: Result<u64, String> },
    /// Evaluate an expression.
    Evaluate { ticket: Ticket, pipeline_id: u64, expression: String },
    /// Read the document, down to a depth.
    GetDocument { ticket: Ticket, pipeline_id: u64, depth: i32 },
    /// Read the children of a node, down to a depth.
    GetChildren {
        ticket: Ticket,
        node_id: i64,
        pipeline_id: u64,
        unique_id: String,
        depth: i32,
    },
    /// Compute the layout of a node.
    GetLayout { ticket: Ticket, pipeline_id: u64, unique_id: String },
    /// Take a screenshot of a web view, or of a part of it.
    Screenshot { ticket: Ticket, webview_id: u64, clip: Option<Clip> },
}

/// What a [`Request`] asks.
pub enum Asked {
    CreateTarget { connection_id: u64, id: i64, url: Seq<char> },
    CloseTarget { connection_id: u64, id: i64, target_id: Seq<char>, webview_id: u64 },
    Focus { webview_id: u64 },
    Script { ticket: TicketView, pipeline_id: u64, action: ScriptAction },
    Navigate {
        ticket: TicketView,
        frame_id: Seq<char>,
        url: Seq<char>,
        pipeline: Result<u64, Seq<char>>,
    },
    Evaluate { ticket: TicketView, pipeline_id: u64, expression: Seq<char> },
    GetDocument { ticket: TicketView, pipeline_id: u64, depth: i32 },
    GetChildren {
        ticket: TicketView,
        node_id: i64,
        pipeline_id: u64,
        unique_id: Seq<char>,
        depth: i32,
    },
    GetLayout { ticket: TicketView, pipeline_id: u64, unique_id: Seq<char> },
    Screenshot { ticket: TicketView, webview_id: u64, clip: Option<ClipView> },
}

/// A pipeline, or why there is none.
pub open spec fn pipeline_view(pipeline: Result<u64, String>) -> Result<u64, Seq<char>> {
    match pipeline {
        Ok(id) => Ok(id),
        Err(reason) => Err(reason@),
    }
}

/// The clip that there may be.
pub open spec fn clip_view(clip: Option<Clip>) -> Option<ClipView> {
    match clip {
        Some(clip) => Some(clip@),
        None => None,
    }
}

impl View for Request {
    type V = Asked;

    open spec fn view(&self) -> Asked {
        match *self {
            Request::CreateTarget { connection_id, id, url } => Asked::CreateTarget {
                connection_id,
                id,
                url: url@,
            },
            Request::CloseTarget { connection_id, id, target_id, webview_id } => {
                Asked::CloseTarget { connection_id, id, target_id: target_id@, webview_id }
            },
            Request::Focus { webview_id } => Asked::Focus { webview_id },
            Request::Script { ticket, pipeline_id, action } => Asked::Script {
                ticket: ticket@,
                pipeline_id,
                action,
            },
            Request::Navigate { ticket, frame_id, url, pipeline } => Asked::Navigate {
                ticket: ticket@,
                frame_id: frame_id@,
                url: url@,
                pipeline: pipeline_view(pipeline),
            },
            Request::Evaluate { ticket, pipeline_id, expression } => Asked::Evaluate {
                ticket: ticket@,
                pipeline_id,
                expression: expression@,
            },
            Request::GetDocument { ticket, pipeline_id, depth } => Asked::GetDocument {
                ticket: ticket@,
                pipeline_id,
                depth,
            },
            Request::GetChildren { ticket, node_id, pipeline_id, unique_id, depth } => {
                Asked::GetChildren {
                    ticket: ticket@,
                    node_id,
                    pipeline_id,
                    unique_id: unique_id@,
                    depth,
                }
            },
            Request::GetLayout { ticket, pipeline_id, unique_id } => Asked::GetLayout {
                ticket: ticket@,
                pipeline_id,
                unique_id: unique_id@,
            },
            Request::Screenshot { ticket, webview_id, clip } => Asked::Screenshot {
                ticket: ticket@,
                webview_id,
                clip: clip_view(clip),
            },
        }
    }
}

/// What may be asked.
pub open spec fn asked(request: Option<Request>) -> Option<Asked> {
    match request {
        Some(request) => Some(request@),
        None => None,
    }
}

} // verus!
