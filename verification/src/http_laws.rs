//! What holds of the opening of a connection and of the discovery endpoints: how
//! a request is taken apart, and what is answered.
use vstd::prelude::*;
use vstd::utf8::*;

use crate::discovery;
use crate::encoding;
use crate::endpoints;
use crate::fxmap;
use crate::handshake;
use crate::handshake::HandshakeError;
use crate::json;
use crate::json::Json;
use crate::model::State;
use crate::model::Target;
use crate::names;
use crate::observe;
use crate::text;
use crate::text_laws;

verus! {

/// The accept key stands for the digest of the client key and the GUID of the
/// protocol, one behind the other.
pub proof fn law_accept_key_is_a_digest(client_key: Seq<char>)
    ensures
        encoding::base64_bytes(handshake::accept_key(client_key)) == encoding::sha1_digest(
            encode_utf8(client_key) + encode_utf8("258EAFA5-E914-47DA-95CA-C5AB0DC85B11"@),
        ),
{
    encoding::law_base64_can_be_undone(
        encoding::sha1_digest(
            encode_utf8(client_key) + encode_utf8("258EAFA5-E914-47DA-95CA-C5AB0DC85B11"@),
        ),
    );
}

/// The parts, one behind the other, are all of a text.
pub open spec fn is_made_of(whole: Seq<char>, parts: Seq<Seq<char>>) -> bool
    decreases parts.len(),
{
    if parts.len() == 0 {
        whole.len() == 0
    } else {
        let last = parts.last();
        &&& last.len() <= whole.len()
        &&& whole.subrange(whole.len() - last.len(), whole.len() as int) == last
        &&& is_made_of(whole.take(whole.len() - last.len()), parts.drop_last())
    }
}

proof fn lemma_made_of(front: Seq<char>, parts: Seq<Seq<char>>, last: Seq<char>)
    requires
        is_made_of(front, parts),
    ensures
        is_made_of(front + last, parts.push(last)),
{
    let whole = front + last;
    assert(parts.push(last).drop_last() =~= parts);
    assert(whole.subrange(whole.len() - last.len(), whole.len() as int) =~= last);
    assert(whole.take(whole.len() - last.len()) =~= front);
}

/// The response that completes a handshake switches protocols, and has the accept
/// key of the client key in a header line.
pub proof fn law_handshake_response(client_key: Seq<char>)
    ensures
        is_made_of(
            handshake::handshake_response(client_key),
            seq![
                "HTTP/1.1 101 Switching Protocols\r\nUpgrade: websocket\r\nConnection: Upgrade\r\nSec-WebSocket-Accept: "@,
                handshake::accept_key(client_key),
                "\r\n\r\n"@,
            ],
        ),
{
    let a =
        "HTTP/1.1 101 Switching Protocols\r\nUpgrade: websocket\r\nConnection: Upgrade\r\nSec-WebSocket-Accept: "@;
    let b = handshake::accept_key(client_key);
    let c = "\r\n\r\n"@;
    let none = Seq::<char>::empty();
    let no_parts = Seq::<Seq<char>>::empty();
    assert(is_made_of(none, no_parts));
    lemma_made_of(none, no_parts, a);
    lemma_made_of(none + a, no_parts.push(a), b);
    lemma_made_of(none + a + b, no_parts.push(a).push(b), c);
    assert(none + a + b + c =~= handshake::handshake_response(client_key));
    assert(no_parts.push(a).push(b).push(c) =~= seq![a, b, c]);
}

/// A response with a JSON body has the status in its first line, the type of the
/// body, its length in bytes in decimal notation, and behind an empty line the
/// body.
pub proof fn law_json_response(status: Seq<char>, body: Seq<char>)
    ensures
        is_made_of(
            handshake::json_response(status, body),
            seq![
                "HTTP/1.1 "@,
                status,
                "\r\nContent-Type: application/json\r\nContent-Length: "@,
                text::decimal(encode_utf8(body).len()),
                "\r\nConnection: close\r\n\r\n"@,
                body,
            ],
        ),
{
    let a = "HTTP/1.1 "@;
    let c = "\r\nContent-Type: application/json\r\nContent-Length: "@;
    let d = text::decimal(encode_utf8(body).len());
    let e = "\r\nConnection: close\r\n\r\n"@;
    let none = Seq::<char>::empty();
    let p0 = Seq::<Seq<char>>::empty();
    let p1 = p0.push(a);
    let p2 = p1.push(status);
    let p3 = p2.push(c);
    let p4 = p3.push(d);
    let p5 = p4.push(e);
    assert(is_made_of(none, p0));
    lemma_made_of(none, p0, a);
    lemma_made_of(none + a, p1, status);
    lemma_made_of(none + a + status, p2, c);
    lemma_made_of(none + a + status + c, p3, d);
    lemma_made_of(none + a + status + c + d, p4, e);
    lemma_made_of(none + a + status + c + d + e, p5, body);
    assert(none + a + status + c + d + e + body =~= handshake::json_response(status, body));
    assert(p5.push(body) =~= seq![a, status, c, d, e, body]);
}

/// A request ends with the first empty line: with two line feeds, or with two
/// pairs of carriage return and line feed.
pub proof fn law_requests_end_with_an_empty_line(input: Seq<u8>, n: int)
    requires
        0 <= n <= input.len(),
    ensures
        handshake::empty_line_at(input, n) <==> ((n >= 2 && input.subrange(n - 2, n) == seq![
            10u8,
            10u8,
        ]) || (n >= 4 && input.subrange(n - 4, n) == seq![13u8, 10u8, 13u8, 10u8])),
        handshake::MAX_REQUEST_SIZE == 16384,
{
    if n >= 2 {
        let end = input.subrange(n - 2, n);
        assert(end[0] == input[n - 2] && end[1] == input[n - 1]);
        if handshake::empty_line_at(input, n) && input[n - 2] == 10 {
            assert(end =~= seq![10u8, 10u8]);
        }
    }
    if n >= 4 {
        let end = input.subrange(n - 4, n);
        assert(end[0] == input[n - 4] && end[1] == input[n - 3]);
        assert(end[2] == input[n - 2] && end[3] == input[n - 1]);
        if handshake::empty_line_at(input, n) && input[n - 2] == 13 {
            assert(end =~= seq![13u8, 10u8, 13u8, 10u8]);
        }
    }
}

/// The path of a request is the second word of its first line, and its headers
/// are in the other lines.
pub proof fn law_request_is_taken_apart(line: Seq<char>, rest: Seq<char>)
    requires
        forall|i: int| 0 <= i < line.len() ==> line[i] != '\n',
    ensures
        ({
            let request = line + seq!['\r', '\n'] + rest;
            &&& handshake::request_path(request) == text::second_word(line)
            &&& handshake::request_headers(request) == handshake::header_fields(text::lines(rest))
        }),
        handshake::request_path(Seq::empty()).len() == 0,
        handshake::request_headers(Seq::empty()).len() == 0,
{
    text_laws::law_lines(line, rest);
    let all = seq![line] + text::lines(rest);
    assert(all.skip(1) =~= text::lines(rest));
}

/// A header line gives a field: what stands in front of its first colon is the
/// name, in lower case, and what stands behind it is the value, both without
/// white space around them. A line without a colon gives none.
pub proof fn law_header_lines_give_fields(
    lines: Seq<Seq<char>>,
    name: Seq<char>,
    value: Seq<char>,
)
    requires
        forall|i: int| 0 <= i < name.len() ==> name[i] != ':',
    ensures
        handshake::header_fields(lines.push(name + seq![':'] + value)) == handshake::header_fields(
            lines,
        ).push((text::lower(text::trim(name)), text::trim(value))),
        handshake::header_fields(lines.push(name)) == handshake::header_fields(lines),
        handshake::header_fields(Seq::empty()).len() == 0,
{
    let line = name + seq![':'] + value;
    text::lemma_position(line, ':');
    let colon = text::position(line, ':');
    assert(line[name.len() as int] == ':');
    if colon < name.len() {
        assert(line[colon] == name[colon]);
    }
    assert(colon == name.len());
    assert(line.take(colon) =~= name);
    assert(line.skip(colon + 1) =~= value);
    assert(lines.push(line).drop_last() =~= lines);
    text::lemma_position(name, ':');
    assert(lines.push(name).drop_last() =~= lines);
}

/// The value of a header is that of the first field of its name.
pub proof fn law_first_field_counts(
    fields: Seq<(Seq<char>, Seq<char>)>,
    name: Seq<char>,
    at: int,
)
    requires
        0 <= at <= fields.len(),
        forall|i: int| 0 <= i < at ==> (#[trigger] fields[i]).0 != name,
        at < fields.len() ==> fields[at].0 == name,
    ensures
        at < fields.len() ==> handshake::first_value(fields, name) == Some(fields[at].1),
        at == fields.len() ==> handshake::first_value(fields, name) is None,
    decreases fields.len(),
{
    if at > 0 {
        let rest = fields.skip(1);
        assert(fields[0].0 != name);
        assert forall|i: int| 0 <= i < at - 1 implies (#[trigger] rest[i]).0 != name by {
            assert(rest[i] == fields[i + 1]);
        }
        law_first_field_counts(rest, name, at - 1);
    }
}

/// A request asks for a WebSocket where an `upgrade` header says `websocket` and
/// a `connection` header has `upgrade` in it, both in any case.
pub proof fn law_upgrade_is_asked_for(fields: Seq<(Seq<char>, Seq<char>)>)
    ensures
        handshake::is_upgrade(fields) <==> {
            &&& exists|i: int|
                0 <= i < fields.len() && (#[trigger] fields[i]).0 == "upgrade"@ && text::lower(
                    fields[i].1,
                ) == "websocket"@
            &&& exists|i: int|
                0 <= i < fields.len() && (#[trigger] fields[i]).0 == "connection"@
                    && text::contains_text(text::lower(fields[i].1), "upgrade"@)
        },
{
    if handshake::is_upgrade(fields) {
        let i = choose|i: int|
            0 <= i < fields.len() && #[trigger] handshake::asks_for_websocket(fields[i]);
        assert(fields[i].0 == "upgrade"@);
        let j = choose|j: int|
            0 <= j < fields.len() && #[trigger] handshake::asks_for_upgrade(fields[j]);
        assert(fields[j].0 == "connection"@);
    }
    if exists|i: int|
        0 <= i < fields.len() && (#[trigger] fields[i]).0 == "upgrade"@ && text::lower(fields[i].1)
            == "websocket"@ {
        let i = choose|i: int|
            0 <= i < fields.len() && (#[trigger] fields[i]).0 == "upgrade"@ && text::lower(
                fields[i].1,
            ) == "websocket"@;
        assert(handshake::asks_for_websocket(fields[i]));
    }
    if exists|i: int|
        0 <= i < fields.len() && (#[trigger] fields[i]).0 == "connection"@ && text::contains_text(
            text::lower(fields[i].1),
            "upgrade"@,
        ) {
        let i = choose|i: int|
            0 <= i < fields.len() && (#[trigger] fields[i]).0 == "connection"@
                && text::contains_text(text::lower(fields[i].1), "upgrade"@);
        assert(handshake::asks_for_upgrade(fields[i]));
    }
}

/// A request that asks for no WebSocket is for an endpoint. One that does is opened
/// with the first key that it gives, and refused where it gives none.
pub proof fn law_requests_are_routed(fields: Seq<(Seq<char>, Seq<char>)>, at: int)
    requires
        0 <= at <= fields.len(),
        forall|i: int| 0 <= i < at ==> (#[trigger] fields[i]).0 != "sec-websocket-key"@,
        at < fields.len() ==> fields[at].0 == "sec-websocket-key"@,
    ensures
        !handshake::is_upgrade(fields) ==> handshake::route_of(fields) == Ok::<
            Option<Seq<char>>,
            HandshakeError,
        >(None),
        handshake::is_upgrade(fields) && at < fields.len() ==> handshake::route_of(fields) == Ok::<
            Option<Seq<char>>,
            HandshakeError,
        >(Some(fields[at].1)),
        handshake::is_upgrade(fields) && at == fields.len() ==> handshake::route_of(fields) == Err::<
            Option<Seq<char>>,
            HandshakeError,
        >(HandshakeError::MissingKey),
{
    law_first_field_counts(fields, "sec-websocket-key"@, at);
}

/// What is said of each error.
pub proof fn law_handshake_errors_are_named(error: HandshakeError)
    ensures
        match error {
            HandshakeError::UnexpectedEof => handshake::handshake_error_text(error)
                == "connection closed during WebSocket handshake"@,
            HandshakeError::TooLarge => handshake::handshake_error_text(error)
                == "WebSocket handshake request too large"@,
            HandshakeError::MissingKey => handshake::handshake_error_text(error)
                == "missing Sec-WebSocket-Key in WebSocket handshake"@,
        },
{
}

/// An object has the metadata of the browser: its version is the Chromium version
/// of the user agent.
pub open spec fn is_metadata(
    info: Json,
    state: State,
    host: Seq<char>,
    user_agent: Seq<char>,
) -> bool {
    let version = discovery::chrome_version(user_agent) + ".0.0.0"@;
    &&& observe::part(info, "Browser"@) == Json::Text("Chrome/"@ + version)
    &&& observe::part(info, "Protocol-Version"@) == Json::Text("1.3"@)
    &&& observe::part(info, "User-Agent"@) == Json::Text(user_agent)
    &&& observe::part(info, "V8-Version"@) == Json::Text(version)
    &&& observe::part(info, "WebKit-Version"@) == Json::Text("537.36 (@0)"@)
    &&& observe::part(info, "jsVersion"@) == Json::Text(version)
    &&& observe::part(info, "webSocketDebuggerUrl"@) == Json::Text(state.web_socket_debugger_url)
    &&& observe::part(info, "host"@) == Json::Text(host)
}

/// An entry of the target list: the debugger URLs lead to the target on the host.
pub open spec fn is_entry(entry: Json, target: Target, host: Seq<char>) -> bool {
    &&& observe::part(entry, "id"@) == Json::Text(target.target_id_string)
    &&& observe::part(entry, "title"@) == Json::Text(target.title)
    &&& observe::part(entry, "url"@) == Json::Text(target.url)
    &&& observe::part(entry, "type"@) == Json::Text("page"@)
    &&& observe::part(entry, "description"@) == Json::Text(""@)
    &&& observe::part(entry, "webSocketDebuggerUrl"@) matches Json::Text(url) && is_made_of(
        url,
        seq!["ws://"@, host, "/devtools/page/"@, target.target_id_string],
    )
    &&& observe::part(entry, "devtoolsFrontendUrl"@) matches Json::Text(url) && is_made_of(
        url,
        seq![
            "devtools://devtools/bundled/inspector.html?ws="@,
            host,
            "/devtools/page/"@,
            target.target_id_string,
        ],
    )
}

proof fn lemma_four_parts(a: Seq<char>, b: Seq<char>, c: Seq<char>, d: Seq<char>)
    ensures
        is_made_of(a + b + c + d, seq![a, b, c, d]),
{
    let none = Seq::<char>::empty();
    let p0 = Seq::<Seq<char>>::empty();
    assert(is_made_of(none, p0));
    lemma_made_of(none, p0, a);
    lemma_made_of(none + a, p0.push(a), b);
    lemma_made_of(none + a + b, p0.push(a).push(b), c);
    lemma_made_of(none + a + b + c, p0.push(a).push(b).push(c), d);
    assert(none + a + b + c + d =~= a + b + c + d);
    assert(p0.push(a).push(b).push(c).push(d) =~= seq![a, b, c, d]);
}

proof fn lemma_entry(target: Target, host: Seq<char>)
    ensures
        is_entry(endpoints::listed_target(target, host), target, host),
{
    names::lemma_listed_names();
    lemma_four_parts("ws://"@, host, "/devtools/page/"@, target.target_id_string);
    lemma_four_parts(
        "devtools://devtools/bundled/inspector.html?ws="@,
        host,
        "/devtools/page/"@,
        target.target_id_string,
    );
}

/// A list has an entry for each of the targets, in that order.
pub open spec fn lists_entries(
    list: Json,
    order: Seq<u64>,
    state: State,
    host: Seq<char>,
) -> bool {
    &&& list is Array
    &&& observe::items(list).len() == order.len()
    &&& order.no_duplicates()
    &&& forall|id: u64| #[trigger] order.contains(id) <==> state.targets.contains_key(id)
    &&& forall|i: int|
        0 <= i < order.len() ==> is_entry(
            observe::items(list)[i],
            state.targets[#[trigger] order[i]],
            host,
        )
}

/// What is right to answer on a path.
pub open spec fn is_right_answer(
    path: Seq<char>,
    status: Seq<char>,
    answer: Json,
    state: State,
    host: Seq<char>,
    user_agent: Seq<char>,
) -> bool {
    if path == "/json/version"@ {
        status == "200 OK"@ && is_metadata(answer, state, host, user_agent)
    } else if path == "/json"@ || path == "/json/list"@ {
        status == "200 OK"@ && exists|order: Seq<u64>| #[trigger]
            lists_entries(answer, order, state, host)
    } else {
        status == "404 Not Found"@ && observe::part(answer, "error"@) == Json::Text(
            "Unknown endpoint"@,
        )
    }
}

/// The endpoints answer with the metadata of the browser, with a list of all
/// targets, each once, or with an error where the path is another; always for the
/// host that the request names, or the local one.
pub proof fn law_endpoints_answer(
    state: State,
    path: Seq<char>,
    fields: Seq<(Seq<char>, Seq<char>)>,
    host: Seq<char>,
    user_agent: Seq<char>,
    response: Seq<char>,
)
    requires
        endpoints::is_discovery_response(state, path, fields, user_agent, response),
        match handshake::first_value(fields, "host"@) {
            Some(named) => host == named,
            None => host == "127.0.0.1"@,
        },
    ensures
        exists|status: Seq<char>, answer: Json| #[trigger]
            is_right_answer(path, status, answer, state, host, user_agent) && response
                == handshake::json_response(status, json::json_text(answer)),
{
    let (status, body) = choose|status: Seq<char>, body: Seq<char>| #[trigger]
        endpoints::is_answer(state, path, host, user_agent, status, body) && response
            == handshake::json_response(status, body);
    assert(response == handshake::json_response(status, body));
    if path == "/json/version"@ {
        names::lemma_metadata_names();
        let answer = endpoints::version_info(state, host, user_agent);
        assert(is_metadata(answer, state, host, user_agent));
        assert(body == json::json_text(answer));
        assert(is_right_answer(path, status, answer, state, host, user_agent));
    } else if path == "/json"@ || path == "/json/list"@ {
        let order = choose|order: Seq<u64>| #[trigger]
            fxmap::lists(order, state.targets.dom()) && body == json::json_text(
                Json::Array(endpoints::listed_targets(state, host, order)),
            );
        let answer = Json::Array(endpoints::listed_targets(state, host, order));
        assert forall|id: u64| #[trigger]
            order.contains(id) <==> state.targets.contains_key(id) by {
            assert(order.contains(id) == state.targets.dom().contains(id));
        }
        assert forall|i: int| 0 <= i < order.len() implies is_entry(
            observe::items(answer)[i],
            state.targets[#[trigger] order[i]],
            host,
        ) by {
            lemma_entry(state.targets[order[i]], host);
        }
        assert(lists_entries(answer, order, state, host));
        assert(body == json::json_text(answer));
        assert(is_right_answer(path, status, answer, state, host, user_agent));
    } else {
        let answer = Json::Object(map!["error"@ => Json::Text("Unknown endpoint"@)]);
        assert(body == json::json_text(answer));
        assert(is_right_answer(path, status, answer, state, host, user_agent));
    }
}

} // verus!
