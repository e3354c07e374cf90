//! The HTTP discovery endpoints that Chromium exposes on the remote debugging
//! port:
//! - `GET /json/version` — browser metadata,
//! - `GET /json` and `GET /json/list` — the list of inspectable targets.
use serde_json::Value;
use vstd::prelude::*;

use crate::browser;
use crate::discovery;
use crate::fxmap;
use crate::handshake;
use crate::json;
use crate::json::Json;
use crate::json::Members;
use crate::model::CdpTarget;
use crate::model::State;
use crate::model::Target;
use crate::server::CdpServer;
use crate::text;

verus! {

/// The browser metadata.
pub open spec fn version_info(state: State, host: Seq<char>, user_agent: Seq<char>) -> Json {
    let version = browser::full_version(discovery::chrome_version(user_agent));
    Json::Object(
        map![
            "Browser"@ => Json::Text("Chrome/"@ + version),
            "Protocol-Version"@ => Json::Text("1.3"@),
            "User-Agent"@ => Json::Text(user_agent),
            "V8-Version"@ => Json::Text(version),
            "WebKit-Version"@ => Json::Text("537.36 (@0)"@),
            "jsVersion"@ => Json::Text(version),
            "webSocketDebuggerUrl"@ => Json::Text(state.web_socket_debugger_url),
            "host"@ => Json::Text(host),
        ],
    )
}

/// How a target is listed.
pub open spec fn listed_target(target: Target, host: Seq<char>) -> Json {
    Json::Object(
        map![
            "description"@ => Json::Text(""@),
            "devtoolsFrontendUrl"@ => Json::Text(
                "devtools://devtools/bundled/inspector.html?ws="@ + host + "/devtools/page/"@
                    + target.target_id_string,
            ),
            "id"@ => Json::Text(target.target_id_string),
            "title"@ => Json::Text(target.title),
            "type"@ => Json::Text("page"@),
            "url"@ => Json::Text(target.url),
            "webSocketDebuggerUrl"@ => Json::Text(
                "ws://"@ + host + "/devtools/page/"@ + target.target_id_string,
            ),
        ],
    )
}

/// The targets as they are listed, in the given order.
pub open spec fn listed_targets(state: State, host: Seq<char>, order: Seq<u64>) -> Seq<Json> {
    order.map_values(|target_id: u64| listed_target(state.targets[target_id], host))
}

/// The text lists all targets, in some order.
pub open spec fn is_target_list(state: State, host: Seq<char>, body: Seq<char>) -> bool {
    exists|order: Seq<u64>| #[trigger]
        fxmap::lists(order, state.targets.dom()) && body == json::json_text(
            Json::Array(listed_targets(state, host, order)),
        )
}

/// What an endpoint answers: its status and its body.
pub open spec fn is_answer(
    state: State,
    path: Seq<char>,
    host: Seq<char>,
    user_agent: Seq<char>,
    status: Seq<char>,
    body: Seq<char>,
) -> bool {
    if path == "/json/version"@ {
        &&& status == "200 OK"@
        &&& body == json::json_text(version_info(state, host, user_agent))
    } else if path == "/json"@ || path == "/json/list"@ {
        &&& status == "200 OK"@
        &&& is_target_list(state, host, body)
    } else {
        &&& status == "404 Not Found"@
        &&& body == json::json_text(browser::single("error"@, Json::Text("Unknown endpoint"@)))
    }
}

/// The host that a request names.
pub open spec fn requested_host(fields: Seq<(Seq<char>, Seq<char>)>) -> Seq<char> {
    match handshake::first_value(fields, "host"@) {
        Some(host) => host,
        None => "127.0.0.1"@,
    }
}

/// The response to a request to an endpoint.
pub open spec fn is_discovery_response(
    state: State,
    path: Seq<char>,
    fields: Seq<(Seq<char>, Seq<char>)>,
    user_agent: Seq<char>,
    response: Seq<char>,
) -> bool {
    exists|status: Seq<char>, body: Seq<char>| #[trigger]
        is_answer(state, path, requested_host(fields), user_agent, status, body) && response
            == handshake::json_response(status, body)
}

impl CdpServer {
    /// The browser metadata as a JSON text.
    pub fn version_json(&self, host: &str, user_agent: &str) -> (body: String)
        ensures
            body@ == json::json_text(version_info(self@, host@, user_agent@)),
    {
        let chrome_version = discovery::chrome_major_version(user_agent);
        let mut version = chrome_version.to_string();
        version.push_str(".0.0.0");
        let mut product = "Chrome/".to_string();
        product.push_str(version.as_str());
        let info = Members::new().with("Browser", json::string(product.as_str())).with(
            "Protocol-Version",
            json::string("1.3"),
        ).with("User-Agent", json::string(user_agent)).with(
            "V8-Version",
            json::string(version.as_str()),
        ).with("WebKit-Version", json::string("537.36 (@0)")).with(
            "jsVersion",
            json::string(version.as_str()),
        ).with(
            "webSocketDebuggerUrl",
            json::string(self.web_socket_debugger_url.as_str()),
        ).with("host", json::string(host)).value();
        json::value_text(&info)
    }

    /// The `/json/list` payload: all inspectable page targets.
    pub fn target_list_json(&self, host: &str) -> (body: String)
        ensures
            is_target_list(self@, host@, body@),
    {
        let ids = fxmap::fx_keys(&self.targets);
        assert(fxmap::views(ids@) =~= ids@);
        let mut list: Vec<Value> = Vec::new();
        let mut i: usize = 0;
        assert(json::jsons(list@) =~= listed_targets(self@, host@, ids@.take(0)));
        while i < ids.len()
            invariant
                i <= ids@.len(),
                fxmap::lists(ids@, self@.targets.dom()),
                json::jsons(list@) == listed_targets(self@, host@, ids@.take(i as int)),
            decreases ids@.len() - i,
        {
            let ghost done = list@;
            assert(ids@.contains(ids@[i as int]));
            if let Some(target) = fxmap::fx_get(&self.targets, &ids[i]) {
                let item = listed_target_json(target, host);
                list.push(item);
                assert(json::jsons(list@) =~= json::jsons(done).push(json::json_of(item)));
            }
            i += 1;
            assert(listed_targets(self@, host@, ids@.take(i as int)) =~= listed_targets(
                self@,
                host@,
                ids@.take(i - 1),
            ).push(listed_target(self@.targets[ids@[i - 1]], host@)));
        }
        assert(ids@.take(i as int) =~= ids@);
        json::value_text(&json::array(list))
    }

    /// Answers the HTTP discovery endpoints.
    pub fn discovery_response(
        &self,
        path: &str,
        headers: &[(String, String)],
        user_agent: &str,
    ) -> (response: String)
        ensures
            is_discovery_response(
                self@,
                path@,
                handshake::pairs(headers@),
                user_agent@,
                response@,
            ),
    {
        let host = match handshake::header_value(headers, "host") {
            Some(host) => host,
            None => "127.0.0.1",
        };
        let (status, body) = if text::same_text(path, "/json/version") {
            ("200 OK", self.version_json(host, user_agent))
        } else if text::same_text(path, "/json") || text::same_text(path, "/json/list") {
            ("200 OK", self.target_list_json(host))
        } else {
            let error = browser::single_json("error", json::string("Unknown endpoint"));
            ("404 Not Found", json::value_text(&error))
        };
        let ghost fields = handshake::pairs(headers@);
        assert(is_answer(
            self@,
            path@,
            requested_host(fields),
            user_agent@,
            status@,
            body@,
        ));
        handshake::http_response(status, body.as_str())
    }
}

/// Builds the entry of a target in the list.
fn listed_target_json(target: &CdpTarget, host: &str) -> (value: Value)
    ensures
        json::json_of(value) == listed_target(target@, host@),
{
    let id = target.target_id_string.as_str();
    let mut frontend = "devtools://devtools/bundled/inspector.html?ws=".to_string();
    frontend.push_str(host);
    frontend.push_str("/devtools/page/");
    frontend.push_str(id);
    let mut debugger = "ws://".to_string();
    debugger.push_str(host);
    debugger.push_str("/devtools/page/");
    debugger.push_str(id);
    Members::new().with("description", json::string("")).with(
        "devtoolsFrontendUrl",
        json::string(frontend.as_str()),
    ).with("id", json::string(id)).with("title", json::string(target.title.as_str())).with(
        "type",
        json::string("page"),
    ).with("url", json::string(target.url.as_str())).with(
        "webSocketDebuggerUrl",
        json::string(debugger.as_str()),
    ).value()
}

} // verus!
