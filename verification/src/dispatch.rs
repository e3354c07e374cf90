//! Dispatching of client-to-browser messages ("commands"). Commands are
//! addressed either to the browser (no session) or to a session created with
//! `Target.attachToTarget`.
use serde_json::Value;
use vstd::prelude::*;

use crate::browser;
use crate::control;
use crate::invariants;
use crate::json;
use crate::json::Json;
use crate::model;
use crate::model::State;
use crate::model::Ticket;
use crate::model::TicketView;
use crate::protocol;
use crate::protocol::CdpError;
use crate::requests;
use crate::requests::Asked;
use crate::requests::Request;
use crate::server;
use crate::server::CdpServer;
use crate::server::Delivery;
use crate::session;
use crate::text;

verus! {

/// What holds while a message is handled.
pub struct Environment {
    /// The `user_agent` preference.
    pub user_agent: String,
    /// The time since the server started, in seconds.
    pub now: Value,
}

/// What is to be done after a message was handled.
pub struct Reaction {
    /// What is asked of the browser.
    pub request: Option<Request>,
    /// What is written to the connections.
    pub deliveries: Vec<Delivery>,
}

/// The method of a message, empty where it has none.
pub open spec fn method_of(message: Json) -> Seq<char> {
    match json::text_member(message, "method"@) {
        Some(method) => method,
        None => Seq::empty(),
    }
}

/// The parameters of a message, none where it has none.
pub open spec fn params_of(message: Json) -> Json {
    match json::member(message, "params"@) {
        Some(params) => params,
        None => model::nothing(),
    }
}

/// The message carries another: the legacy (non-flat) way of addressing session
/// messages.
pub open spec fn is_carrier(message: Json) -> bool {
    method_of(message) == "Target.sendMessageToTarget"@
}

/// The message that another carries as a JSON text.
pub open spec fn carried(message: Json) -> Option<Json> {
    if is_carrier(message) {
        match json::text_member(params_of(message), "message"@) {
            Some(text) => json::json_parse(text),
            None => None,
        }
    } else {
        None
    }
}

/// `inner` is what is left of a message when it is unpacked `times` times.
pub open spec fn unpacked(message: Json, times: nat, inner: Json) -> bool
    decreases times,
{
    if times == 0 {
        inner == message
    } else {
        match carried(message) {
            Some(next) => unpacked(next, (times - 1) as nat, inner),
            None => false,
        }
    }
}

/// `inner` is what is left of a message when it is unpacked as often as it can
/// be.
pub open spec fn fully_unpacked(message: Json, times: nat, inner: Json) -> bool {
    unpacked(message, times, inner) && carried(inner) is None
}

/// What a message that carries none leads to.
pub open spec fn message_step(
    before: State,
    connection_id: u64,
    message: Json,
    user_agent: Seq<char>,
    now: Json,
    after: State,
    asked: Option<Asked>,
) -> bool {
    let id = json::int_member(message, "id"@);
    let method = method_of(message);
    let params = params_of(message);
    if is_carrier(message) {
        &&& after == match id {
            Some(id) => before.refuse(
                connection_id,
                id,
                protocol::ERROR_INVALID_REQUEST,
                "invalid 'message' parameter"@,
            ),
            None => before,
        }
        &&& asked is None
    } else {
        match json::text_member(message, "sessionId"@) {
            Some(session_id) => session::session_step(
                before,
                TicketView { connection_id, id, session_id },
                method,
                params,
                user_agent,
                now,
                after,
                asked,
            ),
            None => browser::browser_step(
                before,
                connection_id,
                id,
                method,
                params,
                user_agent,
                after,
                asked,
            ),
        }
    }
}

/// A message was handled, and the queue delivered.
pub open spec fn message_handled(
    before: State,
    connection_id: u64,
    message: Json,
    environment: Environment,
    times: nat,
    inner: Json,
    queued: State,
    after: State,
    reaction: Reaction,
) -> bool {
    &&& fully_unpacked(message, times, inner)
    &&& message_step(
        before,
        connection_id,
        inner,
        environment.user_agent@,
        json::json_of(environment.now),
        queued,
        requests::asked(reaction.request),
    )
    &&& control::settled(queued, after, reaction.deliveries@)
}

/// A message was handled.
pub open spec fn handled(
    before: State,
    connection_id: u64,
    message: Json,
    environment: Environment,
    after: State,
    reaction: Reaction,
) -> bool {
    exists|times: nat, inner: Json, queued: State| #[trigger]
        message_handled(
            before,
            connection_id,
            message,
            environment,
            times,
            inner,
            queued,
            after,
            reaction,
        )
}

/// The message that another carries, unpacked once more.
proof fn lemma_unpack_further(message: Json, times: nat, inner: Json, next: Json)
    requires
        unpacked(message, times, inner),
        carried(inner) == Some(next),
    ensures
        unpacked(message, times + 1, next),
    decreases times,
{
    if times > 0 {
        lemma_unpack_further(carried(message)->Some_0, (times - 1) as nat, inner, next);
    } else {
        assert(unpacked(next, 0, next));
    }
}

/// The texts in the parameters of a message are no longer than those in the
/// message.
proof fn lemma_params_shorter(message: Json, n: nat)
    requires
        json::shorter(message, n),
    ensures
        json::text_member(params_of(message), "message"@) matches Some(text) ==> text.len() < n,
{
    let params = params_of(message);
    if let Some(text) = json::text_member(params, "message"@) {
        assert(json::member(message, "params"@) is Some);
        assert(json::shorter(message->Object_0["params"@], n));
        assert(json::shorter(params->Object_0["message"@], n));
    }
}

impl CdpServer {
    /// The message that another carries, if it carries one.
    fn unpack(message: &Value) -> (inner: Option<Value>)
        ensures
            match inner {
                Some(value) => {
                    &&& carried(json::json_of(*message)) == Some(json::json_of(value))
                    &&& json::text_member(
                        params_of(json::json_of(*message)),
                        "message"@,
                    ) matches Some(text)
                    &&& json::shorter(json::json_of(value), text.len())
                },
                None => carried(json::json_of(*message)) is None,
            },
    {
        let carries = match json::get_text(message, "method") {
            Some(method) => text::same_text(method, "Target.sendMessageToTarget"),
            None => {
                assert(Seq::<char>::empty() != "Target.sendMessageToTarget"@) by {
                    reveal_strlit("Target.sendMessageToTarget");
                    assert("Target.sendMessageToTarget"@.len() > 0);
                }
                false
            },
        };
        if !carries {
            return None;
        }
        let text = match json::get_member(message, "params") {
            Some(params) => json::get_text(params, "message"),
            None => None,
        };
        match text {
            Some(text) => json::parse_value(text),
            None => None,
        }
    }

    /// Handles a message that carries no other.
    fn handle_unpacked(&mut self, connection_id: u64, message: &Value, environment: &Environment) -> (request:
        Option<Request>)
        requires
            old(self)@.room(),
            carried(json::json_of(*message)) is None,
        ensures
            message_step(
                old(self)@,
                connection_id,
                json::json_of(*message),
                environment.user_agent@,
                json::json_of(environment.now),
                final(self)@,
                requests::asked(request),
            ),
    {
        let id = json::get_int(message, "id");
        let method = match json::get_text(message, "method") {
            Some(method) => method.to_string(),
            None => String::new(),
        };
        assert(method@ =~= method_of(json::json_of(*message)));
        let params = match json::get_member(message, "params") {
            Some(params) => params.clone(),
            None => server::nothing(),
        };
        if text::same_text(method.as_str(), "Target.sendMessageToTarget") {
            if let Some(id) = id {
                self.send_error_to_connection(
                    connection_id,
                    id,
                    CdpError::invalid_params("invalid 'message' parameter"),
                );
            }
            return None;
        }
        match json::get_text(message, "sessionId") {
            Some(session_id) => {
                let ticket = Ticket { connection_id, id, session_id: session_id.to_string() };
                self.handle_session_message(
                    ticket,
                    method.as_str(),
                    &params,
                    environment.user_agent.as_str(),
                    &environment.now,
                )
            },
            None => self.handle_browser_message(
                connection_id,
                id,
                method.as_str(),
                &params,
                environment.user_agent.as_str(),
            ),
        }
    }

    /// Handles a message received from a client on the given connection.
    pub fn handle_client_message(
        &mut self,
        connection_id: u64,
        message: &Value,
        environment: &Environment,
    ) -> (reaction: Reaction)
        requires
            old(self)@.room(),
        ensures
            handled(
                old(self)@,
                connection_id,
                json::json_of(*message),
                *environment,
                final(self)@,
                reaction,
            ),
            invariants::wf(old(self)@) ==> invariants::wf(final(self)@),
    {
        let ghost whole = json::json_of(*message);
        let mut inner: Value = message.clone();
        let ghost mut times: nat = 0;
        let ghost mut limit: nat = match json::text_member(params_of(whole), "message"@) {
            Some(text) => text.len() + 1,
            None => 0,
        };
        loop
            invariant
                self@ == old(self)@,
                whole == json::json_of(*message),
                unpacked(whole, times, json::json_of(inner)),
                json::text_member(
                    params_of(json::json_of(inner)),
                    "message"@,
                ) matches Some(text) ==> text.len() < limit,
            ensures
                self@ == old(self)@,
                whole == json::json_of(*message),
                unpacked(whole, times, json::json_of(inner)),
                carried(json::json_of(inner)) is None,
            decreases limit,
        {
            match Self::unpack(&inner) {
                Some(next) => {
                    proof {
                        lemma_unpack_further(
                            whole,
                            times,
                            json::json_of(inner),
                            json::json_of(next),
                        );
                        let text = json::text_member(
                            params_of(json::json_of(inner)),
                            "message"@,
                        )->Some_0;
                        lemma_params_shorter(json::json_of(next), text.len());
                        times = times + 1;
                        limit = text.len();
                    }
                    inner = next;
                },
                None => {
                    break;
                },
            }
        }
        let request = self.handle_unpacked(connection_id, &inner, environment);
        let ghost queued = self@;
        proof {
            if invariants::wf(old(self)@) {
                invariants::law_client_message_keeps_order(
                    old(self)@,
                    connection_id,
                    json::json_of(inner),
                    environment.user_agent@,
                    json::json_of(environment.now),
                    queued,
                    requests::asked(request),
                );
                invariants::law_delivery_keeps_order(queued);
            }
        }
        let deliveries = self.flush();
        let reaction = Reaction { request, deliveries };
        assert(message_handled(
            old(self)@,
            connection_id,
            whole,
            *environment,
            times,
            json::json_of(inner),
            queued,
            self@,
            reaction,
        ));
        reaction
    }

    /// Handles the text of a message received from a client. One that is not
    /// JSON is ignored.
    pub fn handle_client_text(
        &mut self,
        connection_id: u64,
        text: &str,
        environment: &Environment,
    ) -> (reaction: Option<Reaction>)
        requires
            old(self)@.room(),
        ensures
            match reaction {
                Some(reaction) => {
                    &&& json::json_parse(text@) matches Some(message)
                    &&& handled(
                        old(self)@,
                        connection_id,
                        message,
                        *environment,
                        final(self)@,
                        reaction,
                    )
                },
                None => json::json_parse(text@) is None && final(self)@ == old(self)@,
            },
            invariants::wf(old(self)@) ==> invariants::wf(final(self)@),
    {
        match json::parse_value(text) {
            Some(message) => Some(self.handle_client_message(connection_id, &message, environment)),
            None => None,
        }
    }
}

} // verus!
