//! The entry points through which connections come and go, and browser events
//! come in. Each of them delivers what was queued.
use serde_json::Value;
use vstd::prelude::*;

use crate::events;
use crate::events::ConsoleMessage;
use crate::events::NavigationStop;
use crate::events::NewGlobal;
use crate::events::PageError;
use crate::fxmap;
use crate::invariants;
use crate::json;
use crate::json::Json;
use crate::model::CdpConnection;
use crate::model::State;
use crate::network;
use crate::network::NetworkEvent;
use crate::server;
use crate::server::CdpServer;
use crate::server::Delivery;

verus! {

/// What comes from a script thread.
pub enum ScriptMsg {
    NewGlobal(NewGlobal),
    NavigationStart { browsing_context_id: u64, url: String, origin: String },
    NavigationStop(NavigationStop),
    ConsoleApi { pipeline_id: u64, message: ConsoleMessage, is_worker: bool },
    ClearConsole { pipeline_id: u64, is_worker: bool },
    TitleChanged { pipeline_id: u64, title: String },
    ReportPageError { pipeline_id: u64, error: PageError },
    /// Anything else, which is not reported.
    Other,
}

/// What comes from the browser.
pub enum ChromeMsg {
    NetworkEvent { request_id: String, event: NetworkEvent },
    ServerExit,
    /// Anything else, which is not reported.
    Other,
}

/// A browser event.
pub enum ControlMsg {
    FromScript(ScriptMsg),
    FromChrome(ChromeMsg),
    ClientExited,
}

/// What a message from a script thread leads to.
pub open spec fn script_step(before: State, msg: ScriptMsg, after: State) -> bool {
    match msg {
        ScriptMsg::NewGlobal(global) => events::new_global_step(before, global, after),
        ScriptMsg::NavigationStart { browsing_context_id, url, origin } => {
            events::navigation_start_step(before, browsing_context_id, url@, origin@, after)
        },
        ScriptMsg::NavigationStop(stop) => events::navigation_stop_step(before, stop, after),
        ScriptMsg::ConsoleApi { pipeline_id, message, is_worker } => if is_worker {
            after == before
        } else {
            events::console_step(before, pipeline_id, message, after)
        },
        ScriptMsg::ClearConsole { pipeline_id, is_worker } => if is_worker {
            after == before
        } else {
            events::clear_console_step(before, pipeline_id, after)
        },
        ScriptMsg::TitleChanged { pipeline_id, title } => events::title_step(
            before,
            pipeline_id,
            title@,
            after,
        ),
        ScriptMsg::ReportPageError { pipeline_id, error } => events::page_error_step(
            before,
            pipeline_id,
            error,
            after,
        ),
        ScriptMsg::Other => after == before,
    }
}

/// The sessions of the given connections.
pub open spec fn sessions_among(state: State, connections: Set<u64>) -> Set<Seq<char>> {
    Set::new(
        |id: Seq<char>|
            state.sessions.contains_key(id) && connections.contains(
                state.sessions[id].connection_id,
            ),
    )
}

/// The given connections and all of their sessions are gone.
pub open spec fn connections_closed(state: State, gone: Set<u64>) -> State {
    State {
        connections: state.connections.remove_keys(gone),
        ..state.without_sessions(sessions_among(state, gone))
    }
}

/// What a message from the browser leads to.
pub open spec fn chrome_step(before: State, msg: ChromeMsg, now: Json, after: State) -> bool {
    match msg {
        ChromeMsg::NetworkEvent { request_id, event } => network::network_step(
            before,
            request_id@,
            event,
            now,
            after,
        ),
        ChromeMsg::ServerExit => after == connections_closed(before, before.connections.dom()),
        ChromeMsg::Other => after == before,
    }
}

/// What a browser event leads to.
pub open spec fn control_step(before: State, msg: ControlMsg, now: Json, after: State) -> bool {
    match msg {
        ControlMsg::FromScript(msg) => script_step(before, msg, after),
        ControlMsg::FromChrome(msg) => chrome_step(before, msg, now, after),
        ControlMsg::ClientExited => after == before,
    }
}

/// A queue was delivered.
pub open spec fn settled(queued: State, after: State, list: Seq<Delivery>) -> bool {
    &&& after == server::flushed(queued)
    &&& server::deliveries(list) == server::delivered(queued.outbox, queued.connections)
}

/// A browser event was handled, and the queue delivered.
pub open spec fn control_handled(
    before: State,
    msg: ControlMsg,
    now: Json,
    queued: State,
    after: State,
    list: Seq<Delivery>,
) -> bool {
    control_step(before, msg, now, queued) && settled(queued, after, list)
}

/// A new connection is entered.
pub open spec fn connected(state: State) -> State {
    State {
        next_connection_id: (state.next_connection_id + 1) as u64,
        connections: state.connections.insert(
            state.next_connection_id,
            CdpConnection { auto_attach: false, target_discovery: false },
        ),
        ..state
    }
}

impl CdpServer {
    /// Registers a new WebSocket connection with the server.
    pub fn register_connection(&mut self) -> (result: (u64, Vec<Delivery>))
        requires
            old(self)@.next_connection_id < u64::MAX,
        ensures
            result.0 == old(self)@.next_connection_id,
            settled(connected(old(self)@), final(self)@, result.1@),
            invariants::wf(old(self)@) ==> invariants::wf(final(self)@),
    {
        proof {
            if invariants::wf(self@) {
                invariants::law_connecting_keeps_order(self@);
                invariants::law_delivery_keeps_order(connected(self@));
            }
        }
        let connection_id = self.next_connection_id;
        self.next_connection_id = connection_id + 1;
        fxmap::fx_insert(
            &mut self.connections,
            connection_id,
            CdpConnection { auto_attach: false, target_discovery: false },
        );
        assert(self@ =~= connected(old(self)@));
        let list = self.flush();
        (connection_id, list)
    }

    /// Handles a message from a script thread.
    fn handle_script_msg(&mut self, msg: &ScriptMsg)
        requires
            old(self)@.room(),
        ensures
            script_step(old(self)@, *msg, final(self)@),
    {
        match msg {
            ScriptMsg::NewGlobal(global) => {
                self.handle_new_global(global);
            },
            ScriptMsg::NavigationStart { browsing_context_id, url, origin } => {
                self.handle_navigation_start(*browsing_context_id, url.as_str(), origin.as_str());
            },
            ScriptMsg::NavigationStop(stop) => {
                self.handle_navigation_stop(stop);
            },
            ScriptMsg::ConsoleApi { pipeline_id, message, is_worker } => {
                if !*is_worker {
                    self.handle_console_api(*pipeline_id, message);
                }
            },
            ScriptMsg::ClearConsole { pipeline_id, is_worker } => {
                if !*is_worker {
                    self.handle_clear_console(*pipeline_id);
                }
            },
            ScriptMsg::TitleChanged { pipeline_id, title } => {
                self.handle_title_changed(*pipeline_id, title.as_str());
            },
            ScriptMsg::ReportPageError { pipeline_id, error } => {
                self.handle_page_error(*pipeline_id, error);
            },
            ScriptMsg::Other => {},
        }
    }

    /// Removes all connections.
    fn close_connections(&mut self)
        ensures
            final(self)@ == connections_closed(old(self)@, old(self)@.connections.dom()),
    {
        let ids = fxmap::fx_keys(&self.connections);
        assert(fxmap::views(ids@) =~= ids@);
        let ghost before = self@;
        let mut i: usize = 0;
        proof {
            assert(ids@.take(0).to_set() =~= Set::empty());
            assert(sessions_among(before, Set::empty()) =~= Set::empty());
            assert(connections_closed(before, Set::empty()) =~= before);
        }
        while i < ids.len()
            invariant
                i <= ids@.len(),
                self@ == connections_closed(before, ids@.take(i as int).to_set()),
            decreases ids@.len() - i,
        {
            let ghost gone = ids@.take(i as int).to_set();
            self.remove_connection(ids[i]);
            proof {
                fxmap::lemma_take_to_set(ids@, i as int);
                assert(self@ =~= connections_closed(before, gone.insert(ids@[i as int])));
            }
            i += 1;
        }
        assert(ids@.take(i as int) =~= ids@);
        assert(ids@.to_set() =~= before.connections.dom());
    }

    /// Handles a message from the browser.
    fn handle_chrome_msg(&mut self, msg: &ChromeMsg, now: &Value)
        requires
            old(self)@.room(),
        ensures
            chrome_step(old(self)@, *msg, json::json_of(*now), final(self)@),
    {
        match msg {
            ChromeMsg::NetworkEvent { request_id, event } => {
                self.handle_network_event(request_id.as_str(), event, now);
            },
            ChromeMsg::ServerExit => {
                self.close_connections();
            },
            ChromeMsg::Other => {},
        }
    }

    /// Feeds a browser event into the server, which turns the events that the
    /// connected clients subscribed to into messages. `now` is the time since
    /// the server started, in seconds.
    pub fn handle_control_msg(&mut self, msg: &ControlMsg, now: &Value) -> (list: Vec<Delivery>)
        requires
            old(self)@.room(),
        ensures
            exists|queued: State| #[trigger]
                control_handled(
                    old(self)@,
                    *msg,
                    json::json_of(*now),
                    queued,
                    final(self)@,
                    list@,
                ),
            invariants::wf(old(self)@) ==> invariants::wf(final(self)@),
    {
        match msg {
            ControlMsg::FromScript(msg) => {
                self.handle_script_msg(msg);
            },
            ControlMsg::FromChrome(msg) => {
                self.handle_chrome_msg(msg, now);
            },
            ControlMsg::ClientExited => {},
        }
        let ghost queued = self@;
        proof {
            if invariants::wf(old(self)@) {
                invariants::law_browser_event_keeps_order(
                    old(self)@,
                    *msg,
                    json::json_of(*now),
                    queued,
                );
                invariants::law_delivery_keeps_order(queued);
            }
        }
        let list = self.flush();
        assert(control_handled(
            old(self)@,
            *msg,
            json::json_of(*now),
            queued,
            self@,
            list@,
        ));
        list
    }
}

} // verus!
