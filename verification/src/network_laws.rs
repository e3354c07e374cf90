//! What clients learn of requests and responses, and what is remembered of them.
use vstd::prelude::*;

use crate::headers;
use crate::json;
use crate::json::Json;
use crate::model;
use crate::model::NetworkRequest;
use crate::model::State;
use crate::names;
use crate::network;
use crate::network::HttpRequest;
use crate::network::HttpResponse;
use crate::observe;
use crate::protocol;
use crate::text;

verus! {

/// A session gets the network events of a target: it talks to the connection, is
/// attached to the target, and enabled the `Network` domain.
pub open spec fn follows_network(
    state: State,
    connection_id: u64,
    session: Option<Seq<char>>,
    target_id: u64,
) -> bool {
    &&& observe::is_between(state, connection_id, session, target_id)
    &&& state.sessions[session->Some_0].network_enabled
}

/// A message says that the request is sent.
pub open spec fn tells_request(
    message: Json,
    request_id: Seq<char>,
    request: HttpRequest,
    now: Json,
) -> bool {
    let told = observe::parameter(message, "request"@);
    &&& observe::is_event(message, "Network.requestWillBeSent"@)
    &&& observe::parameter(message, "requestId"@) == Json::Text(request_id)
    &&& observe::parameter(message, "documentURL"@) == Json::Text(request.url@)
    &&& observe::parameter(message, "timestamp"@) == now
    &&& observe::parameter(message, "wallTime"@) == json::json_of(request.wall_time)
    &&& observe::parameter(message, "loaderId"@) == Json::Text(""@)
    &&& observe::parameter(message, "redirectHasExtraInfoLoaded"@) == Json::Bool(false)
    &&& observe::part(observe::parameter(message, "initiator"@), "type"@) == Json::Text("other"@)
    &&& observe::part(told, "url"@) == Json::Text(request.url@)
    &&& observe::part(told, "method"@) == Json::Text(request.method@)
    &&& observe::part(told, "headers"@) == protocol::header_json(
        Some(headers::header_entries(request.headers)),
    )
}

/// A request of a target that is known is told, once, to each session that
/// follows the network of the target, and to nobody else; it is remembered as one
/// in flight. Nothing else changes.
pub proof fn law_request_is_told(
    before: State,
    request_id: Seq<char>,
    request: HttpRequest,
    now: Json,
    after: State,
    connection_id: u64,
    session: Option<Seq<char>>,
)
    requires
        network::request_step(before, request_id, request, now, after),
    ensures
        !before.targets.contains_key(request.browsing_context_id) ==> after == before,
        before.targets.contains_key(request.browsing_context_id) ==> ({
            let new = observe::news(before, after, connection_id, session);
            &&& observe::extends(before, after)
            &&& if follows_network(before, connection_id, session, request.browsing_context_id) {
                new.len() == 1 && tells_request(new[0], request_id, request, now)
            } else {
                new.len() == 0
            }
            &&& after.network_requests.contains_key(request_id)
            &&& after.network_requests[request_id] == (NetworkRequest {
                browsing_context_id: request.browsing_context_id,
                url: request.url@,
                finished: None,
                body: None,
                mime_type: Seq::empty(),
            })
            &&& after == (State {
                network_requests: before.network_requests.insert(
                    request_id,
                    after.network_requests[request_id],
                ),
                outbox: after.outbox,
                ..before
            })
        }),
{
    let target_id = request.browsing_context_id;
    if before.targets.contains_key(target_id) {
        let entered = State {
            network_requests: before.network_requests.insert(
                request_id,
                network::in_flight(target_id, request.url@),
            ),
            ..before
        };
        let event = network::request_event(request_id, request, now);
        names::lemma_reply_names();
        names::lemma_request_names();
        observe::lemma_announced(
            entered,
            target_id,
            model::Audience::Network,
            event,
            after,
            connection_id,
            session,
        );
        if let Some(id) = session {
            observe::lemma_with_session(event, id);
        }
    }
}

/// The status that is reported: that of the response, or zero.
pub open spec fn is_status(response: HttpResponse, status: int) -> bool {
    match response.status {
        Some(code) => status == code,
        None => status == 0,
    }
}

/// A message says that the response came in.
pub open spec fn tells_response(
    message: Json,
    request_id: Seq<char>,
    url: Seq<char>,
    frame_id: Seq<char>,
    response: HttpResponse,
    now: Json,
) -> bool {
    let told = observe::parameter(message, "response"@);
    &&& observe::is_event(message, "Network.responseReceived"@)
    &&& observe::parameter(message, "requestId"@) == Json::Text(request_id)
    &&& observe::parameter(message, "loaderId"@) == Json::Text(""@)
    &&& observe::parameter(message, "frameId"@) == Json::Text(frame_id)
    &&& observe::parameter(message, "timestamp"@) == now
    &&& observe::parameter(message, "type"@) == Json::Text("Other"@)
    &&& observe::part(told, "url"@) == Json::Text(url)
    &&& observe::part(told, "status"@) matches Json::Int(status) && is_status(response, status)
    &&& observe::part(told, "statusText"@) == Json::Text(
        protocol::status_text(
            match response.status {
                Some(code) => code,
                None => 0,
            },
        ),
    )
    &&& observe::part(told, "headers"@) == protocol::header_json(
        match response.headers {
            Some(headers) => Some(headers::header_entries(headers)),
            None => None,
        },
    )
    &&& observe::part(told, "mimeType"@) == Json::Text(
        protocol::mime_type(
            match response.headers {
                Some(headers) => Some(headers::header_entries(headers)),
                None => None,
            },
        ),
    )
    &&& observe::part(told, "fromDiskCache"@) == Json::Bool(response.from_cache)
    &&& observe::part(told, "fromServiceWorker"@) == Json::Bool(false)
    &&& observe::part(told, "connectionReused"@) == Json::Bool(true)
    &&& observe::part(told, "connectionId"@) == Json::Int(0)
    &&& observe::part(told, "encodedDataLength"@) == Json::Int(-1)
}

/// A message says that loading is over, and whether it failed.
pub open spec fn tells_end(message: Json, request_id: Seq<char>, failed: bool, now: Json) -> bool {
    &&& observe::parameter(message, "requestId"@) == Json::Text(request_id)
    &&& observe::parameter(message, "timestamp"@) == now
    &&& if failed {
        &&& observe::is_event(message, "Network.loadingFailed"@)
        &&& observe::parameter(message, "type"@) == Json::Text("Other"@)
        &&& observe::parameter(message, "errorText"@) == Json::Text("net::ERR_FAILED"@)
        &&& observe::parameter(message, "canceled"@) == Json::Bool(false)
    } else {
        &&& observe::is_event(message, "Network.loadingFinished"@)
        &&& observe::parameter(message, "encodedDataLength"@) == Json::Int(-1)
    }
}

/// The response of a request in flight is told to each session that follows the
/// network of its target: that it came in, and then that loading is over.
/// Loading failed where the response has no status, or a status of zero; with any
/// other status, also one that reports an error, it is finished.
pub proof fn law_response_is_told(
    before: State,
    request_id: Seq<char>,
    response: HttpResponse,
    now: Json,
    after: State,
    connection_id: u64,
    session: Option<Seq<char>>,
)
    requires
        network::response_step(before, request_id, response, now, after),
        before.network_requests.contains_key(request_id),
        before.network_requests[request_id].finished is None,
    ensures
        ({
            let request = before.network_requests[request_id];
            let target_id = request.browsing_context_id;
            let new = observe::news(before, after, connection_id, session);
            &&& observe::extends(before, after)
            &&& if follows_network(before, connection_id, session, target_id) {
                &&& new.len() == 2
                &&& tells_response(
                    new[0],
                    request_id,
                    request.url,
                    if before.targets.contains_key(target_id) {
                        before.targets[target_id].target_id_string
                    } else {
                        Seq::empty()
                    },
                    response,
                    now,
                )
                &&& tells_end(
                    new[1],
                    request_id,
                    response.status is None || response.status == Some(0u16),
                    now,
                )
            } else {
                new.len() == 0
            }
        }),
{
    let request = before.network_requests[request_id];
    let target_id = request.browsing_context_id;
    let (remembered, received) = choose|remembered: State, received: State| #[trigger]
        network::response_told(before, request_id, response, now, remembered, received, after);
    names::lemma_reply_names();
    names::lemma_request_names();
    names::lemma_response_names();
    let came = network::response_event(
        request_id,
        request.url,
        before.frame_id(target_id),
        response,
        now,
    );
    let over = network::loading_event(request_id, response, now);
    let audience = model::Audience::Network;
    observe::lemma_quiet(before, remembered, connection_id, session);
    observe::lemma_announced(
        remembered,
        target_id,
        audience,
        came,
        received,
        connection_id,
        session,
    );
    observe::lemma_announced(received, target_id, audience, over, after, connection_id, session);
    observe::lemma_news_compose(remembered, received, after, connection_id, session);
    observe::lemma_news_compose(before, remembered, after, connection_id, session);
    if let Some(id) = session {
        observe::lemma_with_session(came, id);
        observe::lemma_with_session(over, id);
    }
}

/// A response that comes in again, or for a request that is not known, changes
/// nothing.
pub proof fn law_response_counts_once(
    before: State,
    request_id: Seq<char>,
    response: HttpResponse,
    now: Json,
    after: State,
)
    requires
        network::response_step(before, request_id, response, now, after),
        !before.network_requests.contains_key(request_id)
            || before.network_requests[request_id].finished is Some,
    ensures
        after == before,
{
}

/// What is remembered of a response: the request with its URL and its target,
/// when it finished, its MIME type, and its body where that is not too large. Of
/// the other requests none changes, and at most one is dropped: where more than
/// five hundred are finished, one that no other finished before.
pub proof fn law_response_is_remembered(
    before: State,
    request_id: Seq<char>,
    response: HttpResponse,
    now: Json,
    after: State,
)
    requires
        network::response_step(before, request_id, response, now, after),
        before.network_requests.contains_key(request_id),
        before.network_requests[request_id].finished is None,
        before.next_finish_number < u64::MAX,
    ensures
        after == (State {
            network_requests: after.network_requests,
            next_finish_number: after.next_finish_number,
            outbox: after.outbox,
            ..before
        }),
        after.next_finish_number == before.next_finish_number + 1,
        after.network_requests.dom().subset_of(before.network_requests.dom()),
        forall|id: Seq<char>|
            id != request_id && after.network_requests.contains_key(id)
                ==> #[trigger] after.network_requests[id] == before.network_requests[id],
        after.network_requests.contains_key(request_id) ==> ({
            let kept = after.network_requests[request_id];
            &&& kept.browsing_context_id
                == before.network_requests[request_id].browsing_context_id
            &&& kept.url == before.network_requests[request_id].url
            &&& kept.finished == Some(before.next_finish_number)
            &&& kept.mime_type == protocol::mime_type(
                match response.headers {
                    Some(headers) => Some(headers::header_entries(headers)),
                    None => None,
                },
            )
            &&& match response.body {
                Some(body) => if body@.len() <= 20971520 {
                    kept.body == Some(body@)
                } else {
                    kept.body is None
                },
                None => kept.body is None,
            }
        }),
        forall|a: Seq<char>, b: Seq<char>|
            #![trigger before.network_requests.contains_key(a), before.network_requests.contains_key(b)]
            before.network_requests.contains_key(a) && !after.network_requests.contains_key(a)
                && before.network_requests.contains_key(b) && !after.network_requests.contains_key(
                b,
            ) ==> a == b,
{
    let (remembered, received) = choose|remembered: State, received: State| #[trigger]
        network::response_told(before, request_id, response, now, remembered, received, after);
    assert(remembered.network_requests == after.network_requests);
    let all = network::finished(before, request_id, response);
    assert forall|id: Seq<char>| after.network_requests.contains_key(id) implies
        before.network_requests.contains_key(id) by {
        assert(all.network_requests.contains_key(id));
    }
    assert(after.network_requests.dom().subset_of(before.network_requests.dom()));
}

/// A finished request is dropped only where there are more than five hundred of
/// them, and then only one that no other finished before; a request in flight is
/// never dropped. With all finish numbers below the next one, that which just
/// finished is dropped only where it is the only one.
pub proof fn law_only_the_oldest_is_dropped(
    before: State,
    request_id: Seq<char>,
    response: HttpResponse,
    now: Json,
    after: State,
    gone: Seq<char>,
)
    requires
        network::response_step(before, request_id, response, now, after),
        before.network_requests.contains_key(request_id),
        before.network_requests[request_id].finished is None,
        before.network_requests.contains_key(gone),
        !after.network_requests.contains_key(gone),
    ensures
        gone == request_id || before.network_requests[gone].finished is Some,
        forall|other: Seq<char>|
            #![trigger before.network_requests[other]]
            before.network_requests.contains_key(other) && before.network_requests[other].finished
                is Some && gone != request_id ==> before.network_requests[gone].finished->Some_0
                <= before.network_requests[other].finished->Some_0,
        forall|other: Seq<char>|
            #![trigger before.network_requests[other]]
            before.network_requests.contains_key(other) && before.network_requests[other].finished
                is Some && gone == request_id ==> before.next_finish_number
                <= before.network_requests[other].finished->Some_0,
{
    let (remembered, received) = choose|remembered: State, received: State| #[trigger]
        network::response_told(before, request_id, response, now, remembered, received, after);
    assert(remembered.network_requests == after.network_requests);
    let all = network::finished(before, request_id, response).network_requests;
    assert(all.contains_key(gone));
    let oldest = choose|oldest: Seq<char>| #[trigger]
        network::is_oldest(all, oldest) && remembered.network_requests == all.remove(oldest);
    assert(oldest == gone);
    assert forall|other: Seq<char>|
        #![trigger before.network_requests[other]]
        before.network_requests.contains_key(other) && before.network_requests[other].finished
            is Some implies all[gone].finished->Some_0 <= all[other].finished->Some_0 by {
        assert(network::finished_requests(all).contains(other));
    }
}

/// The ids of the requests that are finished.
pub open spec fn over(state: State) -> Set<Seq<char>> {
    state.network_requests.dom().filter(
        |id: Seq<char>| state.network_requests[id].finished is Some,
    )
}

/// No more than five hundred finished requests are remembered, and up to that
/// number none is dropped.
pub proof fn law_five_hundred_are_remembered(
    before: State,
    request_id: Seq<char>,
    response: HttpResponse,
    now: Json,
    after: State,
)
    requires
        network::response_step(before, request_id, response, now, after),
        before.network_requests.contains_key(request_id),
        before.network_requests[request_id].finished is None,
        before.network_requests.dom().finite(),
    ensures
        over(before).len() < 500 ==> after.network_requests.dom() == before.network_requests.dom()
            && over(after) == over(before).insert(request_id),
        over(before).len() >= 500 ==> over(after).len() == over(before).len(),
{
    let (remembered, received) = choose|remembered: State, received: State| #[trigger]
        network::response_told(before, request_id, response, now, remembered, received, after);
    assert(remembered.network_requests == after.network_requests);
    let all = network::finished(before, request_id, response);
    assert(network::finished_requests(all.network_requests) =~= over(before).insert(request_id));
    assert(over(all) =~= over(before).insert(request_id));
    assert(!over(before).contains(request_id));
    if over(before).len() < 500 {
        assert(after.network_requests.dom() =~= before.network_requests.dom());
        assert(over(after) =~= over(all));
    } else {
        let oldest = choose|oldest: Seq<char>| #[trigger]
            network::is_oldest(all.network_requests, oldest) && remembered.network_requests
                == all.network_requests.remove(oldest);
        assert(over(all).contains(oldest));
        assert(over(after) =~= over(all).remove(oldest));
    }
}

/// One more header in a list: where its value is visible it is added, under the
/// name in lower case, behind what is there of that name, with a comma between;
/// no other member changes.
pub proof fn law_headers_are_told_one_by_one(
    entries: Seq<(Seq<char>, Seq<u8>)>,
    name: Seq<char>,
    bytes: Seq<u8>,
    key: Seq<char>,
)
    ensures
        ({
            let before = protocol::header_json(Some(entries));
            let after = protocol::header_json(Some(entries.push((name, bytes))));
            if headers::visible(bytes) && key == text::lower(name) {
                observe::part(after, key) == Json::Text(
                    match observe::part(before, key) {
                        Json::Text(existing) => existing + ", "@ + headers::ascii_text(bytes),
                        _ => headers::ascii_text(bytes),
                    },
                )
            } else {
                observe::part(after, key) == observe::part(before, key)
            }
        }),
        observe::part(protocol::header_json(Some(Seq::empty())), key) is Null,
        observe::part(protocol::header_json(None), key) is Null,
        protocol::header_json(Some(entries)) is Object,
{
    assert(entries.push((name, bytes)).drop_last() =~= entries);
}

/// Lower case changes the letters from A to Z, and nothing else.
pub proof fn law_lower_case(word: Seq<char>, at: int)
    requires
        0 <= at < word.len(),
    ensures
        text::lower(word).len() == word.len(),
        'A' <= word[at] <= 'Z' ==> text::lower(word)[at] as int == word[at] as int + 32,
        !('A' <= word[at] <= 'Z') ==> text::lower(word)[at] == word[at],
{
}

} // verus!
