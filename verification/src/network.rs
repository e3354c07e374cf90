//! Network events: requests and responses, and what is remembered of them.
use http::header::HeaderValue;
use http::HeaderMap;
use serde_json::Value;
use vstd::prelude::*;

use crate::fxmap;
use crate::headers;
use crate::json;
use crate::json::Json;
use crate::json::Members;
use crate::model;
use crate::model::Audience;
use crate::model::NetworkRequest;
use crate::model::NetworkRequestState;
use crate::model::State;
use crate::protocol;
use crate::server::CdpServer;

verus! {

/// A request that is sent.
pub struct HttpRequest {
    pub browsing_context_id: u64,
    pub url: String,
    pub method: String,
    pub headers: HeaderMap<HeaderValue>,
    /// The time of day, in seconds.
    pub wall_time: Value,
}

/// A response that came in.
pub struct HttpResponse {
    /// The status code; a request that failed has none.
    pub status: Option<u16>,
    pub headers: Option<HeaderMap<HeaderValue>>,
    pub body: Option<Vec<u8>>,
    pub from_cache: bool,
}

/// An event of the network.
pub enum NetworkEvent {
    HttpRequest(HttpRequest),
    /// Redirect and cookie updates, which are not reported.
    HttpRequestUpdate,
    HttpResponse(HttpResponse),
    /// Security information, which is not reported.
    SecurityInfo,
}

/// A request that is in flight.
pub open spec fn in_flight(browsing_context_id: u64, url: Seq<char>) -> NetworkRequest {
    NetworkRequest {
        browsing_context_id,
        url,
        finished: None,
        body: None,
        mime_type: Seq::empty(),
    }
}

/// The event that a request is sent.
pub open spec fn request_event(request_id: Seq<char>, request: HttpRequest, now: Json) -> Json {
    protocol::event_json(
        "Network.requestWillBeSent"@,
        Json::Object(
            map![
                "requestId"@ => Json::Text(request_id),
                "loaderId"@ => Json::Text(""@),
                "documentURL"@ => Json::Text(request.url@),
                "request"@ => Json::Object(
                    map![
                        "url"@ => Json::Text(request.url@),
                        "method"@ => Json::Text(request.method@),
                        "headers"@ => protocol::header_json(
                            Some(headers::header_entries(request.headers)),
                        ),
                    ],
                ),
                "timestamp"@ => now,
                "wallTime"@ => json::json_of(request.wall_time),
                "initiator"@ => Json::Object(map!["type"@ => Json::Text("other"@)]),
                "redirectHasExtraInfoLoaded"@ => Json::Bool(false),
            ],
        ),
    )
}

/// What a request leads to. Of a target that is not known it leads to nothing.
pub open spec fn request_step(
    before: State,
    request_id: Seq<char>,
    request: HttpRequest,
    now: Json,
    after: State,
) -> bool {
    let target_id = request.browsing_context_id;
    if before.targets.contains_key(target_id) {
        model::announced(
            State {
                network_requests: before.network_requests.insert(
                    request_id,
                    in_flight(target_id, request.url@),
                ),
                ..before
            },
            target_id,
            Audience::Network,
            request_event(request_id, request, now),
            after,
        )
    } else {
        after == before
    }
}

/// The status that is reported of a response, zero where it has none.
pub open spec fn reported_status(response: HttpResponse) -> u16 {
    match response.status {
        Some(status) => status,
        None => 0,
    }
}

/// The headers of a response.
pub open spec fn response_headers(response: HttpResponse) -> Option<Seq<(Seq<char>, Seq<u8>)>> {
    match response.headers {
        Some(headers) => Some(headers::header_entries(headers)),
        None => None,
    }
}

/// What is kept of a response body: all of it, or nothing where it is larger
/// than [`model::MAX_CAPTURED_BODY_SIZE`].
pub open spec fn kept_body(response: HttpResponse) -> Option<Seq<u8>> {
    match response.body {
        Some(body) => if body@.len() <= model::MAX_CAPTURED_BODY_SIZE {
            Some(body@)
        } else {
            None
        },
        None => None,
    }
}

/// A request is finished.
pub open spec fn finished(before: State, request_id: Seq<char>, response: HttpResponse) -> State {
    State {
        next_finish_number: (before.next_finish_number + 1) as u64,
        network_requests: before.network_requests.insert(
            request_id,
            NetworkRequest {
                finished: Some(before.next_finish_number),
                body: kept_body(response),
                mime_type: protocol::mime_type(response_headers(response)),
                ..before.network_requests[request_id]
            },
        ),
        ..before
    }
}

/// The requests that are finished.
pub open spec fn finished_requests(requests: Map<Seq<char>, NetworkRequest>) -> Set<Seq<char>> {
    Set::new(|id: Seq<char>| requests.contains_key(id) && requests[id].finished is Some)
}

/// Of the finished requests this one is the oldest.
pub open spec fn is_oldest(requests: Map<Seq<char>, NetworkRequest>, id: Seq<char>) -> bool {
    &&& finished_requests(requests).contains(id)
    &&& forall|other: Seq<char>| #[trigger]
        finished_requests(requests).contains(other) ==> requests[id].finished->Some_0
            <= requests[other].finished->Some_0
}

/// Where more finished requests are remembered than there may be, the oldest
/// one is dropped.
pub open spec fn pruned(before: State, after: State) -> bool {
    if finished_requests(before.network_requests).len() <= model::MAX_REMEMBERED_NETWORK_REQUESTS {
        after == before
    } else {
        exists|oldest: Seq<char>| #[trigger]
            is_oldest(before.network_requests, oldest) && after == (State {
                network_requests: before.network_requests.remove(oldest),
                ..before
            })
    }
}

/// The event that a response came in.
pub open spec fn response_event(
    request_id: Seq<char>,
    url: Seq<char>,
    frame_id: Seq<char>,
    response: HttpResponse,
    now: Json,
) -> Json {
    let status = reported_status(response);
    protocol::event_json(
        "Network.responseReceived"@,
        Json::Object(
            map![
                "requestId"@ => Json::Text(request_id),
                "loaderId"@ => Json::Text(""@),
                "frameId"@ => Json::Text(frame_id),
                "timestamp"@ => now,
                "type"@ => Json::Text("Other"@),
                "response"@ => Json::Object(
                    map![
                        "url"@ => Json::Text(url),
                        "status"@ => Json::Int(status as int),
                        "statusText"@ => Json::Text(protocol::status_text(status)),
                        "headers"@ => protocol::header_json(response_headers(response)),
                        "mimeType"@ => Json::Text(
                            protocol::mime_type(response_headers(response)),
                        ),
                        "connectionReused"@ => Json::Bool(true),
                        "connectionId"@ => Json::Int(0),
                        "encodedDataLength"@ => Json::Int(-1),
                        "fromDiskCache"@ => Json::Bool(response.from_cache),
                        "fromServiceWorker"@ => Json::Bool(false),
                    ],
                ),
            ],
        ),
    )
}

/// The event that loading is over: it failed where the response has no status.
pub open spec fn loading_event(request_id: Seq<char>, response: HttpResponse, now: Json) -> Json {
    if reported_status(response) == 0 {
        protocol::event_json(
            "Network.loadingFailed"@,
            Json::Object(
                map![
                    "requestId"@ => Json::Text(request_id),
                    "timestamp"@ => now,
                    "type"@ => Json::Text("Other"@),
                    "errorText"@ => Json::Text("net::ERR_FAILED"@),
                    "canceled"@ => Json::Bool(false),
                ],
            ),
        )
    } else {
        protocol::event_json(
            "Network.loadingFinished"@,
            Json::Object(
                map![
                    "requestId"@ => Json::Text(request_id),
                    "timestamp"@ => now,
                    "encodedDataLength"@ => Json::Int(-1),
                ],
            ),
        )
    }
}

/// What is remembered, and told, of a response.
pub open spec fn response_told(
    before: State,
    request_id: Seq<char>,
    response: HttpResponse,
    now: Json,
    remembered: State,
    received: State,
    after: State,
) -> bool {
    let request = before.network_requests[request_id];
    let target_id = request.browsing_context_id;
    &&& pruned(finished(before, request_id, response), remembered)
    &&& model::announced(
        remembered,
        target_id,
        Audience::Network,
        response_event(request_id, request.url, before.frame_id(target_id), response, now),
        received,
    )
    &&& model::announced(
        received,
        target_id,
        Audience::Network,
        loading_event(request_id, response, now),
        after,
    )
}

/// What a response leads to. That of a request that is not known, or is
/// finished already, leads to nothing.
pub open spec fn response_step(
    before: State,
    request_id: Seq<char>,
    response: HttpResponse,
    now: Json,
    after: State,
) -> bool {
    if before.network_requests.contains_key(request_id)
        && before.network_requests[request_id].finished is None {
        exists|remembered: State, received: State| #[trigger]
            response_told(before, request_id, response, now, remembered, received, after)
    } else {
        after == before
    }
}

/// What an event of the network leads to.
pub open spec fn network_step(
    before: State,
    request_id: Seq<char>,
    event: NetworkEvent,
    now: Json,
    after: State,
) -> bool {
    match event {
        NetworkEvent::HttpRequest(request) => request_step(before, request_id, request, now, after),
        NetworkEvent::HttpRequestUpdate => after == before,
        NetworkEvent::HttpResponse(response) => response_step(
            before,
            request_id,
            response,
            now,
            after,
        ),
        NetworkEvent::SecurityInfo => after == before,
    }
}

/// Builds the event that a request is sent.
fn request_event_json(request_id: &str, request: &HttpRequest, now: &Value) -> (value: Value)
    ensures
        json::json_of(value) == request_event(request_id@, *request, json::json_of(*now)),
{
    let request_json = Members::new().with("url", json::string(request.url.as_str())).with(
        "method",
        json::string(request.method.as_str()),
    ).with("headers", protocol::headers_to_cdp_json(Some(&request.headers))).value();
    let params = Members::new().with("requestId", json::string(request_id)).with(
        "loaderId",
        json::string(""),
    ).with("documentURL", json::string(request.url.as_str())).with("request", request_json).with(
        "timestamp",
        now.clone(),
    ).with("wallTime", request.wall_time.clone()).with(
        "initiator",
        Members::new().with("type", json::string("other")).value(),
    ).with("redirectHasExtraInfoLoaded", json::boolean(false)).value();
    protocol::event("Network.requestWillBeSent", params)
}

/// Builds the event that a response came in.
fn response_event_json(
    request_id: &str,
    url: &str,
    frame_id: &str,
    response: &HttpResponse,
    now: &Value,
) -> (value: Value)
    ensures
        json::json_of(value) == response_event(
            request_id@,
            url@,
            frame_id@,
            *response,
            json::json_of(*now),
        ),
{
    let status = match response.status {
        Some(status) => status,
        None => 0,
    };
    let headers = response.headers.as_ref();
    let response_json = Members::new().with("url", json::string(url)).with(
        "status",
        json::unsigned(status as u64),
    ).with("statusText", json::string(protocol::status_text_for(status))).with(
        "headers",
        protocol::headers_to_cdp_json(headers),
    ).with(
        "mimeType",
        json::string(protocol::mime_type_from_headers(headers).as_str()),
    ).with("connectionReused", json::boolean(true)).with("connectionId", json::integer(0)).with(
        "encodedDataLength",
        json::integer(-1),
    ).with("fromDiskCache", json::boolean(response.from_cache)).with(
        "fromServiceWorker",
        json::boolean(false),
    ).value();
    let params = Members::new().with("requestId", json::string(request_id)).with(
        "loaderId",
        json::string(""),
    ).with("frameId", json::string(frame_id)).with("timestamp", now.clone()).with(
        "type",
        json::string("Other"),
    ).with("response", response_json).value();
    protocol::event("Network.responseReceived", params)
}

/// Builds the event that loading is over.
fn loading_event_json(request_id: &str, response: &HttpResponse, now: &Value) -> (value: Value)
    ensures
        json::json_of(value) == loading_event(request_id@, *response, json::json_of(*now)),
{
    let failed = match response.status {
        Some(status) => status == 0,
        None => true,
    };
    if failed {
        let params = Members::new().with("requestId", json::string(request_id)).with(
            "timestamp",
            now.clone(),
        ).with("type", json::string("Other")).with(
            "errorText",
            json::string("net::ERR_FAILED"),
        ).with("canceled", json::boolean(false)).value();
        protocol::event("Network.loadingFailed", params)
    } else {
        let params = Members::new().with("requestId", json::string(request_id)).with(
            "timestamp",
            now.clone(),
        ).with("encodedDataLength", json::integer(-1)).value();
        protocol::event("Network.loadingFinished", params)
    }
}

impl CdpServer {
    /// The requests that are finished.
    fn finished_request_ids(&self) -> (ids: Vec<String>)
        ensures
            fxmap::lists(fxmap::views(ids@), finished_requests(self@.network_requests)),
    {
        let ghost wanted = |request: NetworkRequest| request.finished is Some;
        let holds = |request: &NetworkRequestState| -> (result: bool)
            ensures
                result == (request@.finished is Some),
        {
            request.finished.is_some()
        };
        let ids = fxmap::fx_keys_where(&self.network_requests, holds, Ghost(wanted));
        assert(fxmap::selected(self@.network_requests, wanted) =~= finished_requests(
            self@.network_requests,
        ));
        ids
    }

    /// When a request finished.
    fn finish_number(&self, id: &String) -> (number: u64)
        requires
            finished_requests(self@.network_requests).contains(id@),
        ensures
            self@.network_requests[id@].finished == Some(number),
    {
        match fxmap::fx_get(&self.network_requests, id) {
            Some(request) => match request.finished {
                Some(number) => number,
                None => 0,
            },
            None => 0,
        }
    }

    /// Prunes old finished requests to keep memory bounded.
    fn prune_finished_requests(&mut self)
        ensures
            pruned(old(self)@, final(self)@),
    {
        let ids = self.finished_request_ids();
        let ghost all = fxmap::views(ids@);
        let ghost requests = self@.network_requests;
        proof {
            fxmap::lemma_lists_len(all, finished_requests(requests));
        }
        if ids.len() <= model::MAX_REMEMBERED_NETWORK_REQUESTS {
            return;
        }
        assert(all.contains(all[0]));
        let mut oldest: usize = 0;
        let mut least = self.finish_number(&ids[0]);
        let mut i: usize = 1;
        while i < ids.len()
            invariant
                1 <= i <= ids@.len(),
                oldest < i,
                all == fxmap::views(ids@),
                requests == self@.network_requests,
                fxmap::lists(all, finished_requests(requests)),
                requests[all[oldest as int]].finished == Some(least),
                forall|j: int|
                    0 <= j < i ==> least <= requests[#[trigger] all[j]].finished->Some_0,
            decreases ids@.len() - i,
        {
            assert(all.contains(all[i as int]));
            let number = self.finish_number(&ids[i]);
            if number < least {
                oldest = i;
                least = number;
            }
            i += 1;
        }
        proof {
            let id = all[oldest as int];
            assert(all.contains(id));
            assert forall|other: Seq<char>| #[trigger]
                finished_requests(requests).contains(other) implies requests[id].finished->Some_0
                <= requests[other].finished->Some_0 by {
                assert(all.contains(other));
                let j = choose|j: int| 0 <= j < all.len() && all[j] == other;
                assert(all[j] == other);
            }
            assert(is_oldest(requests, id));
        }
        fxmap::fx_remove(&mut self.network_requests, &ids[oldest]);
    }

    /// Handles a response.
    fn handle_http_response(&mut self, request_id: &str, response: &HttpResponse, now: &Value)
        requires
            old(self)@.next_finish_number < u64::MAX,
        ensures
            response_step(
                old(self)@,
                request_id@,
                *response,
                json::json_of(*now),
                final(self)@,
            ),
    {
        let key = request_id.to_string();
        let unfinished = match fxmap::fx_get(&self.network_requests, &key) {
            Some(request) => request.finished.is_none(),
            None => false,
        };
        if !unfinished {
            return;
        }
        let Some(request) = fxmap::fx_remove(&mut self.network_requests, &key) else {
            return;
        };
        let mut request = request;
        let target_id = request.browsing_context_id;
        let url = request.url.clone();
        request.finished = Some(self.next_finish_number);
        self.next_finish_number = self.next_finish_number + 1;
        // Keep the body (up to a limit) so that `Network.getResponseBody` can
        // serve it later.
        request.body = match &response.body {
            Some(body) => if body.len() <= model::MAX_CAPTURED_BODY_SIZE {
                let mut kept: Vec<u8> = Vec::new();
                crate::websocket::append_bytes(&mut kept, body.as_slice());
                assert(kept@ =~= body@);
                Some(kept)
            } else {
                None
            },
            None => None,
        };
        request.mime_type = protocol::mime_type_from_headers(response.headers.as_ref());
        fxmap::fx_insert(&mut self.network_requests, key, request);
        assert(self@.network_requests =~= finished(
            old(self)@,
            request_id@,
            *response,
        ).network_requests);
        let frame_id = match fxmap::fx_get(&self.targets, &target_id) {
            Some(target) => target.target_id_string.clone(),
            None => String::new(),
        };
        assert(frame_id@ =~= old(self)@.frame_id(target_id));
        self.prune_finished_requests();
        let ghost remembered = self@;
        self.send_to_target_sessions(
            target_id,
            Audience::Network,
            response_event_json(request_id, url.as_str(), frame_id.as_str(), response, now),
        );
        let ghost received = self@;
        self.send_to_target_sessions(
            target_id,
            Audience::Network,
            loading_event_json(request_id, response, now),
        );
        assert(response_told(
            old(self)@,
            request_id@,
            *response,
            json::json_of(*now),
            remembered,
            received,
            self@,
        ));
    }

    /// Handles an event of the network. `now` is the time since the server
    /// started, in seconds.
    pub(crate) fn handle_network_event(
        &mut self,
        request_id: &str,
        event: &NetworkEvent,
        now: &Value,
    )
        requires
            old(self)@.next_finish_number < u64::MAX,
        ensures
            network_step(old(self)@, request_id@, *event, json::json_of(*now), final(self)@),
    {
        match event {
            NetworkEvent::HttpRequest(request) => {
                let target_id = request.browsing_context_id;
                if fxmap::fx_get(&self.targets, &target_id).is_none() {
                    return;
                }
                fxmap::fx_insert(
                    &mut self.network_requests,
                    request_id.to_string(),
                    NetworkRequestState {
                        browsing_context_id: target_id,
                        url: request.url.clone(),
                        finished: None,
                        body: None,
                        mime_type: String::new(),
                    },
                );
                assert(self@.network_requests =~= old(self)@.network_requests.insert(
                    request_id@,
                    in_flight(target_id, request.url@),
                ));
                self.send_to_target_sessions(
                    target_id,
                    Audience::Network,
                    request_event_json(request_id, request, now),
                );
            },
            NetworkEvent::HttpRequestUpdate => {},
            NetworkEvent::HttpResponse(response) => {
                self.handle_http_response(request_id, response, now);
            },
            NetworkEvent::SecurityInfo => {},
        }
    }
}

} // verus!
