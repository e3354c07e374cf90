//! A Chrome DevTools Protocol server core.
use vstd::prelude::*;

pub mod browser;
pub mod browser_laws;
pub mod control;
pub mod discovery;
pub mod dispatch;
pub mod dom;
pub mod encoding;
pub mod endpoints;
pub mod events;
pub mod fxmap;
pub mod global_laws;
pub mod handshake;
pub mod headers;
pub mod http_laws;
pub mod invariants;
pub mod json;
pub mod laws;
pub mod log_laws;
pub mod methods;
pub mod model;
pub mod names;
pub mod navigatorinfo;
pub mod network;
pub mod network_laws;
pub mod observe;
pub mod outcome_laws;
pub mod outcomes;
pub mod page_laws;
pub mod protocol;
pub mod replies;
pub mod requests;
pub mod server;
pub mod server_laws;
pub mod servolog;
pub mod session;
pub mod session_laws;
pub mod text;
pub mod text_laws;
pub mod value_laws;
pub mod websocket;
pub mod ws_laws;
