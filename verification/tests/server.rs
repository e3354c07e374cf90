use cdp_server::control::{ChromeMsg, ControlMsg, ScriptMsg};
use cdp_server::dispatch::{Environment, Reaction};
use cdp_server::dom::{wants_children, Attribute, NodeInfo, NodeTree};
use cdp_server::events::{ConsoleMessage, NavigationStop, NewGlobal, PageError, PageInfo};
use cdp_server::network::{HttpRequest, HttpResponse, NetworkEvent};
use cdp_server::outcomes::{
    navigation_pipeline, ChildrenOutcome, CreateOutcome, DocumentOutcome, EvaluateOutcome,
    LayoutOutcome, NavigateOutcome, ScreenshotOutcome,
};
use cdp_server::protocol::{ConsoleLogLevel, DebuggerValue, Number, StackFrame};
use cdp_server::requests::{Request, ScriptAction};
use cdp_server::server::{CdpServer, Delivery};
use http::HeaderMap;
use serde_json::Value;

fn parse(text: &str) -> Value {
    serde_json::from_str(text).unwrap()
}

fn environment() -> Environment {
    Environment {
        user_agent: "Mozilla/5.0 Chrome/141.0.0.0".to_owned(),
        now: Value::from(1.5),
    }
}

fn new_server() -> CdpServer {
    CdpServer::new("ws://127.0.0.1:9222/devtools/browser/b".to_owned(), "b".to_owned())
}

/// The message that a delivery holds, in an unmasked text frame.
fn message(delivery: &Delivery) -> (u64, Value) {
    let bytes = &delivery.bytes;
    assert_eq!(bytes[0], 0x81);
    let start = match bytes[1] {
        126 => 4,
        127 => 10,
        _ => 2,
    };
    let value = serde_json::from_slice(&bytes[start..]).unwrap();
    (delivery.connection_id, value)
}

fn messages(deliveries: &[Delivery]) -> Vec<(u64, Value)> {
    deliveries.iter().map(message).collect()
}

fn send(server: &mut CdpServer, connection_id: u64, text: &str) -> Reaction {
    assert!(server.has_room());
    server.handle_client_text(connection_id, text, &environment()).unwrap()
}

/// What a command is answered, where nothing is asked of the browser.
fn told(server: &mut CdpServer, connection_id: u64, text: &str) -> Vec<Value> {
    let reaction = send(server, connection_id, text);
    assert!(reaction.request.is_none());
    messages(&reaction.deliveries)
        .into_iter()
        .map(|(to, value)| {
            assert_eq!(to, connection_id);
            value
        })
        .collect()
}

fn feed(server: &mut CdpServer, msg: ControlMsg) -> Vec<(u64, Value)> {
    assert!(server.has_room());
    messages(&server.handle_control_msg(&msg, &Value::from(2.5)))
}

fn script(server: &mut CdpServer, msg: ScriptMsg) -> Vec<(u64, Value)> {
    feed(server, ControlMsg::FromScript(msg))
}

fn page(title: &str, url: &str) -> PageInfo {
    PageInfo { title: title.to_owned(), url: url.to_owned(), origin: format!("{url}#origin") }
}

fn global(browsing_context_id: u64, pipeline_id: u64, webview_id: u64) -> ScriptMsg {
    ScriptMsg::NewGlobal(NewGlobal {
        browsing_context_id,
        pipeline_id,
        label: format!("({pipeline_id})"),
        is_worker: false,
        webview_id,
        page: page("Title", "http://a/"),
    })
}

/// A server with a connection, a target of the browsing context 7 with the
/// pipeline 70 and the web view 700, and a session.
fn attached_server() -> CdpServer {
    let mut server = new_server();
    assert_eq!(server.register_connection().0, 0);
    script(&mut server, global(7, 70, 700));
    let answers = told(
        &mut server,
        0,
        r#"{"id":1,"method":"Target.attachToTarget","params":{"targetId":"page-0","flatten":true}}"#,
    );
    assert_eq!(answers[1], parse(r#"{"id":1,"result":{"sessionId":"0"}}"#));
    server
}

fn command(method: &str, params: &str) -> String {
    format!(r#"{{"id":5,"sessionId":"0","method":"{method}","params":{params}}}"#)
}

fn session_told(server: &mut CdpServer, method: &str, params: &str) -> Vec<Value> {
    told(server, 0, &command(method, params))
}

fn session_result(server: &mut CdpServer, method: &str, params: &str) -> Value {
    let answers = session_told(server, method, params);
    assert_eq!(answers.len(), 1);
    assert_eq!(answers[0]["id"], 5);
    assert_eq!(answers[0]["sessionId"], "0");
    answers[0]["result"].clone()
}

fn session_error(server: &mut CdpServer, method: &str, params: &str) -> (i64, String) {
    let answers = session_told(server, method, params);
    assert_eq!(answers.len(), 1);
    let error = &answers[0]["error"];
    (error["code"].as_i64().unwrap(), error["message"].as_str().unwrap().to_owned())
}

fn server_error(text: &str) -> (i64, String) {
    (-32000, text.to_owned())
}

#[test]
fn the_browser_tells_its_version() {
    let mut server = new_server();
    server.register_connection();
    assert_eq!(
        told(&mut server, 0, r#"{"id":1,"method":"Browser.getVersion"}"#),
        vec![parse(
            r#"{"id":1,"result":{
                "protocolVersion":"1.3","product":"Chrome/141.0.0.0","revision":"@141",
                "userAgent":"Mozilla/5.0 Chrome/141.0.0.0","jsVersion":"141.0.0.0"
            }}"#
        )]
    );
}

#[test]
fn browser_commands_without_effect() {
    let mut server = new_server();
    server.register_connection();
    for method in ["Browser.close", "Browser.crash", "Target.exposeDevToolsProtocol"] {
        assert_eq!(
            told(&mut server, 0, &format!(r#"{{"id":2,"method":"{method}"}}"#)),
            vec![parse(r#"{"id":2,"result":{}}"#)]
        );
    }
    assert_eq!(
        told(&mut server, 0, r#"{"id":3,"method":"Browser.getProcessMetrics"}"#),
        vec![parse(r#"{"id":3,"result":{"processMetrics":[]}}"#)]
    );
    assert_eq!(
        told(&mut server, 0, r#"{"id":4,"method":"Browser.getWindowForTarget"}"#),
        vec![parse(
            r#"{"id":4,"result":{"windowId":1,"bounds":
                {"left":0,"top":0,"width":0,"height":0,"windowState":"normal"}}}"#
        )]
    );
}

#[test]
fn unknown_methods_are_refused() {
    let mut server = attached_server();
    assert_eq!(
        told(&mut server, 0, r#"{"id":9,"method":"Foo.bar"}"#),
        vec![parse(r#"{"id":9,"error":{"code":-32601,"message":"'Foo.bar' wasn't found"}}"#)]
    );
    assert_eq!(
        session_told(&mut server, "Foo.bar", "{}"),
        vec![parse(
            r#"{"id":5,"sessionId":"0","error":{"code":-32601,"message":"'Foo.bar' wasn't found"}}"#
        )]
    );
    assert_eq!(
        told(&mut server, 0, r#"{"id":9}"#),
        vec![parse(r#"{"id":9,"error":{"code":-32601,"message":"'' wasn't found"}}"#)]
    );
}

#[test]
fn commands_without_an_id_are_not_answered() {
    let mut server = attached_server();
    assert!(told(&mut server, 0, r#"{"method":"Browser.getVersion"}"#).is_empty());
    assert!(told(&mut server, 0, r#"{"method":"Foo.bar","id":"x"}"#).is_empty());
    assert!(told(&mut server, 0, r#"{"method":"Network.enable","sessionId":"0"}"#).is_empty());
    assert!(told(&mut server, 0, r#"{"method":"Foo","sessionId":"9"}"#).is_empty());
    assert!(told(&mut server, 0, "[1]").is_empty());
}

#[test]
fn malformed_messages_are_ignored() {
    let mut server = new_server();
    server.register_connection();
    assert!(server.handle_client_text(0, "{", &environment()).is_none());
}

#[test]
fn carried_messages_are_handled() {
    let mut server = attached_server();
    let inner = r#"{\"id\":3,\"sessionId\":\"0\",\"method\":\"Schema.getDomains\"}"#;
    assert_eq!(
        told(
            &mut server,
            0,
            &format!(
                r#"{{"id":2,"method":"Target.sendMessageToTarget","params":{{"message":"{inner}"}}}}"#
            )
        ),
        vec![parse(r#"{"id":3,"sessionId":"0","result":{"domains":[]}}"#)]
    );
    let error = r#"{"code":-32600,"message":"invalid 'message' parameter"}"#;
    for params in [r#"{"message":"{"}"#, r#"{"message":1}"#, "{}"] {
        assert_eq!(
            told(
                &mut server,
                0,
                &format!(r#"{{"id":2,"method":"Target.sendMessageToTarget","params":{params}}}"#)
            ),
            vec![parse(&format!(r#"{{"id":2,"error":{error}}}"#))]
        );
    }
    assert!(told(&mut server, 0, r#"{"method":"Target.sendMessageToTarget"}"#).is_empty());
}

#[test]
fn sessions_are_private() {
    let mut server = attached_server();
    assert_eq!(server.register_connection().0, 1);
    let not_found = parse(r#"{"id":5,"error":{"code":-32000,"message":"Session not found"}}"#);
    assert_eq!(told(&mut server, 1, &command("Page.enable", "{}")), vec![not_found.clone()]);
    assert_eq!(
        told(&mut server, 0, r#"{"id":5,"sessionId":"7","method":"Page.enable"}"#),
        vec![not_found]
    );
}

#[test]
fn targets_are_listed() {
    let mut server = attached_server();
    let info = r#"{
        "targetId":"page-0","type":"page","title":"Title","url":"http://a/","attached":true,
        "canAccessOpener":false,"browserContextId":"b"
    }"#;
    assert_eq!(
        told(&mut server, 0, r#"{"id":1,"method":"Target.getTargets"}"#),
        vec![parse(&format!(r#"{{"id":1,"result":{{"targetInfos":[{info}]}}}}"#))]
    );
    assert_eq!(
        told(
            &mut server,
            0,
            r#"{"id":1,"method":"Target.getTargetInfo","params":{"targetId":"page-0"}}"#
        ),
        vec![parse(&format!(r#"{{"id":1,"result":{{"targetInfo":{info}}}}}"#))]
    );
    assert_eq!(
        told(
            &mut server,
            0,
            r#"{"id":1,"method":"Target.getTargetInfo","params":{"targetId":"page-9"}}"#
        ),
        vec![parse(r#"{"id":1,"result":{"targetInfo":null}}"#)]
    );
}

#[test]
fn discovery_can_be_turned_on_and_off() {
    let mut server = new_server();
    server.register_connection();
    script(&mut server, global(7, 70, 700));
    let on = told(
        &mut server,
        0,
        r#"{"id":1,"method":"Target.setDiscoverTargets","params":{"discover":true}}"#,
    );
    assert_eq!(on.len(), 2);
    assert_eq!(on[0]["method"], "Target.targetCreated");
    assert_eq!(on[0]["params"]["targetInfo"]["targetId"], "page-0");
    assert_eq!(on[0]["params"]["targetInfo"]["attached"], false);
    assert_eq!(on[1], parse(r#"{"id":1,"result":{}}"#));
    let told_of_second = script(&mut server, global(8, 80, 800));
    assert_eq!(told_of_second.len(), 1);
    assert_eq!(told_of_second[0].1["method"], "Target.targetCreated");
    assert_eq!(told_of_second[0].1["params"]["targetInfo"]["targetId"], "page-1");
    // The same browsing context is no new target.
    assert!(script(&mut server, global(8, 81, 800)).is_empty());
    let off = told(&mut server, 0, r#"{"id":2,"method":"Target.setDiscoverTargets"}"#);
    assert_eq!(off.len(), 3);
    assert_eq!(off[0]["method"], "Target.targetRemoved");
    assert!(script(&mut server, global(9, 90, 900)).is_empty());
}

#[test]
fn attaching_needs_the_flat_mode_and_a_target() {
    let mut server = new_server();
    server.register_connection();
    script(&mut server, global(7, 70, 700));
    assert_eq!(
        told(
            &mut server,
            0,
            r#"{"id":1,"method":"Target.attachToTarget","params":{"targetId":"page-0"}}"#
        ),
        vec![parse(
            r#"{"id":1,"error":{"code":-32600,"message":"only the flat session mode is supported"}}"#
        )]
    );
    assert_eq!(
        told(
            &mut server,
            0,
            r#"{"id":1,"method":"Target.attachToTarget","params":{"targetId":"x","flatten":true}}"#
        ),
        vec![parse(
            r#"{"id":1,"error":{"code":-32000,"message":"No target with given id found"}}"#
        )]
    );
}

#[test]
fn attaching_twice_is_attaching_once() {
    let mut server = attached_server();
    let again = r#"{"id":2,"method":"Target.attachToTarget","params":{"targetId":"page-0","flatten":true}}"#;
    assert_eq!(
        told(&mut server, 0, again),
        vec![parse(r#"{"id":2,"result":{"sessionId":"0"}}"#)]
    );
    assert_eq!(server.register_connection().0, 1);
    assert_eq!(
        told(&mut server, 1, again),
        vec![
            parse(
                r#"{"method":"Target.attachedToTarget","sessionId":"1","params":{
                    "sessionId":"1","waitingForDebugger":false,"targetInfo":{
                        "targetId":"page-0","type":"page","title":"Title","url":"http://a/",
                        "attached":true,"canAccessOpener":false,"browserContextId":"b"
                    }}}"#
            ),
            parse(r#"{"id":2,"result":{"sessionId":"1"}}"#),
        ]
    );
}

#[test]
fn the_last_session_is_the_one_with_the_highest_number() {
    let mut server = new_server();
    server.register_connection();
    for number in 0..11 {
        script(&mut server, global(100 + number, 200 + number, 300 + number));
        let answers = told(
            &mut server,
            0,
            &format!(
                r#"{{"id":1,"method":"Target.attachToTarget","params":{{"targetId":"page-{number}","flatten":true}}}}"#
            ),
        );
        assert_eq!(answers[1]["result"]["sessionId"], number.to_string());
    }
}

#[test]
fn targets_are_attached_automatically() {
    let mut server = new_server();
    server.register_connection();
    script(&mut server, global(7, 70, 700));
    let on = told(
        &mut server,
        0,
        r#"{"id":1,"method":"Target.setAutoAttach","params":{"autoAttach":true}}"#,
    );
    assert_eq!(on.len(), 2);
    assert_eq!(on[0]["method"], "Target.attachedToTarget");
    assert_eq!(on[1], parse(r#"{"id":1,"result":{}}"#));
    let events = script(&mut server, global(8, 80, 800));
    assert_eq!(events.len(), 1);
    assert_eq!(events[0].1["params"]["sessionId"], "1");
    assert_eq!(events[0].1["params"]["targetInfo"]["targetId"], "page-1");
    told(&mut server, 0, r#"{"id":2,"method":"Target.setAutoAttach"}"#);
    assert!(script(&mut server, global(9, 90, 900)).is_empty());
}

#[test]
fn sessions_can_be_detached() {
    let mut server = attached_server();
    assert_eq!(
        told(
            &mut server,
            0,
            r#"{"id":2,"method":"Target.detachFromTarget","params":{"sessionId":"0"}}"#
        ),
        vec![parse(r#"{"id":2,"result":{}}"#)]
    );
    assert_eq!(session_error(&mut server, "Page.enable", "{}"), server_error("Session not found"));
}

#[test]
fn created_targets_are_answered_when_they_can_be_attached() {
    let mut server = new_server();
    server.register_connection();
    let reaction = send(
        &mut server,
        0,
        r#"{"id":4,"method":"Target.createTarget","params":{"url":"http://b/"}}"#,
    );
    assert!(reaction.deliveries.is_empty());
    let Some(Request::CreateTarget { connection_id, id, url }) = reaction.request else {
        panic!("no request");
    };
    assert_eq!((connection_id, id, url.as_str()), (0, 4, "http://b/"));
    assert!(server.finish_create_target(0, 4, CreateOutcome::Created(700)).is_empty());
    assert_eq!(
        script(&mut server, global(7, 70, 700)),
        vec![(0, parse(r#"{"id":4,"result":{"targetId":"page-0"}}"#))]
    );
    let answers = told(
        &mut server,
        0,
        r#"{"id":5,"method":"Target.attachToTarget","params":{"targetId":"page-0","flatten":true}}"#,
    );
    assert_eq!(answers[1]["result"]["sessionId"], "0");
    let reaction = send(&mut server, 0, r#"{"id":6,"method":"Target.createTarget"}"#);
    let Some(Request::CreateTarget { url, .. }) = reaction.request else {
        panic!("no request");
    };
    assert_eq!(url, "about:blank");
}

#[test]
fn targets_that_cannot_be_created() {
    let mut server = new_server();
    server.register_connection();
    let errors = [
        (CreateOutcome::InvalidUrl, -32600, "invalid 'url' parameter"),
        (CreateOutcome::NoChannel, -32000, "Could not create a channel for the new target"),
        (CreateOutcome::Refused, -32000, "The embedder refused to create a new target"),
    ];
    for (outcome, code, text) in errors {
        let answers = messages(&server.finish_create_target(0, 4, outcome));
        assert_eq!(answers.len(), 1);
        assert_eq!(answers[0].1["id"], 4);
        assert_eq!(answers[0].1["error"]["code"], code);
        assert_eq!(answers[0].1["error"]["message"], text);
    }
}

#[test]
fn targets_can_be_closed() {
    let mut server = attached_server();
    let reaction = send(
        &mut server,
        0,
        r#"{"id":2,"method":"Target.closeTarget","params":{"targetId":"page-0"}}"#,
    );
    let Some(Request::CloseTarget { target_id, webview_id, id, .. }) = reaction.request else {
        panic!("no request");
    };
    assert_eq!((target_id.as_str(), webview_id, id), ("page-0", 700, 2));
    assert_eq!(
        messages(&server.finish_close_target(0, 2, "page-0", false)),
        vec![(
            0,
            parse(
                r#"{"id":2,"error":{"code":-32000,"message":"Could not create a channel to close the target"}}"#
            )
        )]
    );
    assert_eq!(session_result(&mut server, "Log.clear", "{}"), parse("{}"));
    assert_eq!(
        messages(&server.finish_close_target(0, 2, "page-0", true)),
        vec![(0, parse(r#"{"id":2,"result":{}}"#))]
    );
    assert_eq!(session_error(&mut server, "Log.clear", "{}"), server_error("Session not found"));
    // A target that is still pending can be closed too.
    server.finish_create_target(0, 3, CreateOutcome::Created(900));
    let reaction = send(
        &mut server,
        0,
        r#"{"id":2,"method":"Target.closeTarget","params":{"targetId":"page-1"}}"#,
    );
    let Some(Request::CloseTarget { webview_id, .. }) = reaction.request else {
        panic!("no request");
    };
    assert_eq!(webview_id, 900);
    assert_eq!(
        told(&mut server, 0, r#"{"id":2,"method":"Target.closeTarget"}"#),
        vec![parse(
            r#"{"id":2,"error":{"code":-32000,"message":"No target with given id found"}}"#
        )]
    );
}

#[test]
fn targets_can_be_activated() {
    let mut server = attached_server();
    let reaction = send(
        &mut server,
        0,
        r#"{"id":2,"method":"Target.activateTarget","params":{"targetId":"page-0"}}"#,
    );
    assert!(matches!(reaction.request, Some(Request::Focus { webview_id: 700 })));
    assert_eq!(messages(&reaction.deliveries), vec![(0, parse(r#"{"id":2,"result":{}}"#))]);
    server.finish_create_target(0, 3, CreateOutcome::Created(900));
    assert_eq!(
        told(
            &mut server,
            0,
            r#"{"id":2,"method":"Target.activateTarget","params":{"targetId":"page-1"}}"#
        ),
        vec![parse(
            r#"{"id":2,"error":{"code":-32000,"message":"No target with given id found"}}"#
        )]
    );
    // The `Target` domain is valid inside sessions; the reply names no session.
    let reaction = send(
        &mut server,
        0,
        r#"{"id":2,"sessionId":"0","method":"Target.activateTarget","params":{"targetId":"page-0"}}"#,
    );
    assert_eq!(messages(&reaction.deliveries), vec![(0, parse(r#"{"id":2,"result":{}}"#))]);
}

#[test]
fn disconnecting_closes_own_sessions() {
    let mut server = attached_server();
    assert_eq!(server.register_connection().0, 1);
    told(
        &mut server,
        1,
        r#"{"id":2,"method":"Target.attachToTarget","params":{"targetId":"page-0","flatten":true}}"#,
    );
    told(&mut server, 1, r#"{"id":3,"sessionId":"1","method":"Page.enable"}"#);
    session_told(&mut server, "Page.enable", "{}");
    let start = || ScriptMsg::NavigationStart {
        browsing_context_id: 7,
        url: "http://c/".to_owned(),
        origin: "c".to_owned(),
    };
    assert_eq!(script(&mut server, start()).len(), 4);
    server.remove_connection(1);
    let events = script(&mut server, start());
    assert_eq!(events.len(), 2);
    assert!(events.iter().all(|(to, event)| *to == 0 && event["sessionId"] == "0"));
    feed(&mut server, ControlMsg::FromChrome(ChromeMsg::ServerExit));
    assert!(script(&mut server, start()).is_empty());
    assert!(told(&mut server, 0, r#"{"id":1,"method":"Browser.getVersion"}"#).is_empty());
}

#[test]
fn events_reach_those_that_asked_for_them() {
    let mut server = attached_server();
    let title = || ScriptMsg::TitleChanged { pipeline_id: 70, title: "New".to_owned() };
    assert!(script(&mut server, title()).is_empty());
    session_told(&mut server, "Runtime.enable", "{}");
    let events = script(&mut server, title());
    assert_eq!(events.len(), 1);
    assert_eq!(events[0].1["method"], "Target.targetInfoChanged");
    assert_eq!(events[0].1["sessionId"], "0");
    assert_eq!(events[0].1["params"]["targetInfo"]["title"], "New");
    session_told(&mut server, "Runtime.disable", "{}");
    assert!(script(&mut server, title()).is_empty());
    session_told(&mut server, "Page.enable", "{}");
    assert_eq!(script(&mut server, title()).len(), 1);
    assert!(script(
        &mut server,
        ScriptMsg::TitleChanged { pipeline_id: 71, title: "x".to_owned() }
    )
    .is_empty());
}

#[test]
fn enabling_the_page_tells_its_state() {
    let mut server = attached_server();
    let navigated = parse(
        r#"{"method":"Page.frameNavigated","sessionId":"0","params":{"type":"Navigation","frame":{
            "id":"page-0","loaderId":"","url":"http://a/","domainAndRegistry":"",
            "securityOrigin":"about:blank","mimeType":"text/html"}}}"#,
    );
    assert_eq!(
        session_told(&mut server, "Page.enable", "{}"),
        vec![parse(r#"{"id":5,"sessionId":"0","result":{}}"#), navigated]
    );
    script(
        &mut server,
        ScriptMsg::NavigationStart {
            browsing_context_id: 7,
            url: "http://c/".to_owned(),
            origin: "c".to_owned(),
        },
    );
    let state = session_told(&mut server, "Page.enable", "{}");
    assert_eq!(state.len(), 3);
    assert_eq!(
        state[2],
        parse(
            r#"{"method":"Page.frameStartedLoading","sessionId":"0","params":{"frameId":"page-0"}}"#
        )
    );
    assert_eq!(session_result(&mut server, "Page.disable", "{}"), parse("{}"));
}

#[test]
fn navigations_are_reported() {
    let mut server = attached_server();
    session_told(&mut server, "Page.enable", "{}");
    let started = script(
        &mut server,
        ScriptMsg::NavigationStart {
            browsing_context_id: 7,
            url: "http://c/".to_owned(),
            origin: "c".to_owned(),
        },
    );
    assert_eq!(
        started[0].1,
        parse(
            r#"{"method":"Page.frameStartedLoading","sessionId":"0","params":{"frameId":"page-0"}}"#
        )
    );
    assert_eq!(started[1].1["method"], "Target.targetInfoChanged");
    assert_eq!(started[1].1["params"]["targetInfo"]["url"], "http://c/");
    let stop = |browsing_context_id| ScriptMsg::NavigationStop(NavigationStop {
        browsing_context_id,
        pipeline_id: 71,
        label: "(71)".to_owned(),
        page: page("C", "http://c/"),
        time: Value::from(12.25),
    });
    let stopped = script(&mut server, stop(7));
    assert_eq!(
        stopped.into_iter().map(|(_, event)| event).collect::<Vec<_>>(),
        vec![
            parse(
                r#"{"method":"Page.frameNavigated","sessionId":"0","params":{"type":"Navigation","frame":{
                    "id":"page-0","loaderId":"","url":"http://c/","domainAndRegistry":"",
                    "securityOrigin":"http://c/#origin","mimeType":"text/html"}}}"#
            ),
            parse(
                r#"{"method":"Page.frameStoppedLoading","sessionId":"0","params":{"frameId":"page-0"}}"#
            ),
            parse(
                r#"{"method":"Page.loadEventFired","sessionId":"0","params":{"timestamp":12.25}}"#
            ),
        ]
    );
    // The pipeline is known, but cannot be told anything yet.
    assert_eq!(
        session_error(&mut server, "Runtime.evaluate", r#"{"expression":"1"}"#),
        server_error("Target is not ready for evaluation")
    );
    assert!(script(&mut server, stop(99)).is_empty());
}

#[test]
fn new_globals_replace_execution_contexts() {
    let mut server = attached_server();
    let contexts = session_told(&mut server, "Runtime.enable", "{}");
    assert_eq!(
        contexts,
        vec![
            parse(r#"{"id":5,"sessionId":"0","result":{}}"#),
            parse(
                r#"{"method":"Runtime.executionContextCreated","sessionId":"0","params":{"context":{
                    "id":0,"origin":"http://a/#origin","name":"","uniqueId":"(70)","isDefault":true,
                    "auxData":{"isDefault":true,"type":"default"}}}}"#
            ),
        ]
    );
    let events = script(&mut server, global(7, 71, 700));
    assert_eq!(
        events.into_iter().map(|(_, event)| event).collect::<Vec<_>>(),
        vec![
            parse(
                r#"{"method":"Runtime.executionContextDestroyed","sessionId":"0","params":{"executionContextId":0}}"#
            ),
            parse(
                r#"{"method":"Runtime.executionContextCreated","sessionId":"0","params":{"context":{
                    "id":1,"origin":"http://a/#origin","name":"Title","uniqueId":"(71)","isDefault":true,
                    "auxData":{"isDefault":true,"frameId":"page-0","type":"default"}}}}"#
            ),
        ]
    );
    let worker = ScriptMsg::NewGlobal(NewGlobal {
        browsing_context_id: 7,
        pipeline_id: 72,
        label: "w".to_owned(),
        is_worker: true,
        webview_id: 700,
        page: page("W", "w"),
    });
    assert!(script(&mut server, worker).is_empty());
}

fn console_message() -> ConsoleMessage {
    ConsoleMessage {
        level: ConsoleLogLevel::Warn,
        arguments: vec![
            DebuggerValue::StringValue("a".to_owned()),
            DebuggerValue::NumberValue(Number::Finite {
                value: Value::from(1.5),
                text: "1.5".to_owned(),
            }),
        ],
        filename: "f.js".to_owned(),
        line_number: 3,
        time_stamp: 1500,
        seconds: Value::from(1.5),
        stacktrace: None,
    }
}

#[test]
fn console_messages_are_reported_twice() {
    let mut server = attached_server();
    session_told(&mut server, "Runtime.enable", "{}");
    session_told(&mut server, "Log.enable", "{}");
    let events = script(
        &mut server,
        ScriptMsg::ConsoleApi { pipeline_id: 70, message: console_message(), is_worker: false },
    );
    assert_eq!(
        events.into_iter().map(|(_, event)| event).collect::<Vec<_>>(),
        vec![
            parse(
                r#"{"method":"Runtime.consoleAPICalled","sessionId":"0","params":{
                    "type":"warning","executionContextId":0,"timestamp":1.5,
                    "args":[{"type":"string","value":"a","description":"a"},{"type":"number","value":1.5}]
                }}"#
            ),
            parse(
                r#"{"method":"Log.entryAdded","sessionId":"0","params":{
                    "source":"console-api","level":"warning","text":"a 1.5","timestamp":1500,
                    "url":"f.js","lineNumber":2
                }}"#
            ),
        ]
    );
    let mut traced = console_message();
    traced.stacktrace = Some(vec![StackFrame {
        function_name: "f".to_owned(),
        filename: "f.js".to_owned(),
        line_number: 3,
        column_number: 4,
    }]);
    let events = script(
        &mut server,
        ScriptMsg::ConsoleApi { pipeline_id: 70, message: traced, is_worker: false },
    );
    for (_, event) in events {
        assert_eq!(
            event["params"]["stackTrace"]["callFrames"][0]["columnNumber"],
            3
        );
    }
    assert!(script(
        &mut server,
        ScriptMsg::ConsoleApi { pipeline_id: 70, message: console_message(), is_worker: true },
    )
    .is_empty());
    assert!(script(
        &mut server,
        ScriptMsg::ConsoleApi { pipeline_id: 7, message: console_message(), is_worker: false },
    )
    .is_empty());
}

#[test]
fn clearing_the_console_and_script_errors() {
    let mut server = attached_server();
    session_told(&mut server, "Runtime.enable", "{}");
    session_told(&mut server, "Log.enable", "{}");
    let cleared = script(&mut server, ScriptMsg::ClearConsole { pipeline_id: 70, is_worker: false });
    assert_eq!(
        cleared,
        vec![(
            0,
            parse(r#"{"method":"Runtime.consoleCleared","sessionId":"0","params":{}}"#)
        )]
    );
    assert!(script(&mut server, ScriptMsg::ClearConsole { pipeline_id: 70, is_worker: true })
        .is_empty());
    let error = PageError {
        error_message: "boom".to_owned(),
        source_name: "f.js".to_owned(),
        line_number: 0,
        time_stamp: 7,
    };
    assert_eq!(
        script(&mut server, ScriptMsg::ReportPageError { pipeline_id: 70, error }),
        vec![(
            0,
            parse(
                r#"{"method":"Log.entryAdded","sessionId":"0","params":{"source":"javascript",
                    "level":"error","text":"boom","timestamp":7,"url":"f.js","lineNumber":0}}"#
            )
        )]
    );
    assert!(script(&mut server, ScriptMsg::Other).is_empty());
    assert!(feed(&mut server, ControlMsg::ClientExited).is_empty());
    assert!(feed(&mut server, ControlMsg::FromChrome(ChromeMsg::Other)).is_empty());
    // The log stays on: turning it off has no effect.
    session_told(&mut server, "Log.disable", "{}");
    let error = PageError {
        error_message: "boom".to_owned(),
        source_name: "f.js".to_owned(),
        line_number: 1,
        time_stamp: 7,
    };
    assert_eq!(
        script(&mut server, ScriptMsg::ReportPageError { pipeline_id: 70, error }).len(),
        1
    );
}

fn network(server: &mut CdpServer, request_id: &str, event: NetworkEvent) -> Vec<(u64, Value)> {
    feed(
        server,
        ControlMsg::FromChrome(ChromeMsg::NetworkEvent {
            request_id: request_id.to_owned(),
            event,
        }),
    )
}

fn request(browsing_context_id: u64) -> NetworkEvent {
    let mut headers = HeaderMap::new();
    headers.insert("accept", "*/*".parse().unwrap());
    NetworkEvent::HttpRequest(HttpRequest {
        browsing_context_id,
        url: "http://a/x".to_owned(),
        method: "GET".to_owned(),
        headers,
        wall_time: Value::from(99.5),
    })
}

fn response(status: Option<u16>, mime_type: &str, body: Option<Vec<u8>>) -> NetworkEvent {
    let mut headers = HeaderMap::new();
    headers.insert("content-type", mime_type.parse().unwrap());
    NetworkEvent::HttpResponse(HttpResponse {
        status,
        headers: Some(headers),
        body,
        from_cache: true,
    })
}

#[test]
fn requests_and_responses_are_reported() {
    let mut server = attached_server();
    session_told(&mut server, "Network.enable", "{}");
    assert_eq!(
        network(&mut server, "r", request(7)),
        vec![(
            0,
            parse(
                r#"{"method":"Network.requestWillBeSent","sessionId":"0","params":{
                    "requestId":"r","loaderId":"","documentURL":"http://a/x",
                    "request":{"url":"http://a/x","method":"GET","headers":{"accept":"*/*"}},
                    "timestamp":2.5,"wallTime":99.5,"initiator":{"type":"other"},
                    "redirectHasExtraInfoLoaded":false}}"#
            )
        )]
    );
    let events = network(&mut server, "r", response(Some(200), "text/html", None));
    assert_eq!(
        events.into_iter().map(|(_, event)| event).collect::<Vec<_>>(),
        vec![
            parse(
                r#"{"method":"Network.responseReceived","sessionId":"0","params":{
                    "requestId":"r","loaderId":"","frameId":"page-0","timestamp":2.5,"type":"Other",
                    "response":{"url":"http://a/x","status":200,"statusText":"OK",
                        "headers":{"content-type":"text/html"},"mimeType":"text/html",
                        "connectionReused":true,"connectionId":0,"encodedDataLength":-1,
                        "fromDiskCache":true,"fromServiceWorker":false}}}"#
            ),
            parse(
                r#"{"method":"Network.loadingFinished","sessionId":"0","params":{
                    "requestId":"r","timestamp":2.5,"encodedDataLength":-1}}"#
            ),
        ]
    );
    // A request finishes once, and only where it is known.
    assert!(network(&mut server, "r", response(Some(200), "text/html", None)).is_empty());
    assert!(network(&mut server, "s", response(Some(200), "text/html", None)).is_empty());
    assert!(network(&mut server, "t", request(99)).is_empty());
    assert!(network(&mut server, "r", NetworkEvent::HttpRequestUpdate).is_empty());
    assert!(network(&mut server, "r", NetworkEvent::SecurityInfo).is_empty());
    network(&mut server, "u", request(7));
    let events = network(&mut server, "u", response(None, "text/html", None));
    assert_eq!(events[0].1["params"]["response"]["status"], 0);
    assert_eq!(
        events[1].1,
        parse(
            r#"{"method":"Network.loadingFailed","sessionId":"0","params":{
                "requestId":"u","timestamp":2.5,"type":"Other","errorText":"net::ERR_FAILED",
                "canceled":false}}"#
        )
    );
}

#[test]
fn response_bodies_are_served() {
    let mut server = attached_server();
    assert_eq!(
        session_error(&mut server, "Network.getResponseBody", "{}"),
        (-32600, "'requestId' parameter is required".to_owned())
    );
    let params = r#"{"requestId":"r"}"#;
    assert_eq!(
        session_error(&mut server, "Network.getResponseBody", params),
        server_error("Request not found")
    );
    network(&mut server, "r", request(7));
    assert_eq!(
        session_error(&mut server, "Network.getResponseBody", params),
        server_error("Response body is not available")
    );
    network(&mut server, "r", response(Some(200), "image/png", Some(vec![0, 255, 1, 2])));
    assert_eq!(
        session_result(&mut server, "Network.getResponseBody", params),
        parse(r#"{"body":"AP8BAg==","base64Encoded":true}"#)
    );
    for mime_type in [
        "text/css",
        "application/json; charset=utf-8",
        "application/javascript",
        "application/xml",
        "application/xhtml+xml",
        "image/svg+xml",
        "application/x-www-form-urlencoded",
    ] {
        network(&mut server, "r", request(7));
        network(&mut server, "r", response(Some(200), mime_type, Some("é".into())));
        assert_eq!(
            session_result(&mut server, "Network.getResponseBody", params),
            parse(r#"{"body":"é","base64Encoded":false}"#)
        );
    }
    network(&mut server, "r", request(7));
    network(&mut server, "r", response(Some(200), "text/css", Some(vec![b'a', 0xFF])));
    assert_eq!(
        session_result(&mut server, "Network.getResponseBody", params),
        parse(r#"{"body":"a�","base64Encoded":false}"#)
    );
}

#[test]
fn large_bodies_are_dropped() {
    let mut server = attached_server();
    let limit = 20 * 1024 * 1024;
    network(&mut server, "r", request(7));
    network(&mut server, "r", response(Some(200), "image/png", Some(vec![0; limit + 1])));
    assert_eq!(
        session_error(&mut server, "Network.getResponseBody", r#"{"requestId":"r"}"#),
        server_error("Response body is not available")
    );
}

#[test]
fn the_oldest_finished_requests_are_forgotten() {
    let mut server = attached_server();
    network(&mut server, "open", request(7));
    for number in 0..502 {
        let id = format!("r{number}");
        network(&mut server, &id, request(7));
        network(&mut server, &id, response(Some(200), "text/css", Some(b"x".to_vec())));
    }
    for number in [0, 1] {
        assert_eq!(
            session_error(
                &mut server,
                "Network.getResponseBody",
                &format!(r#"{{"requestId":"r{number}"}}"#)
            ),
            server_error("Request not found")
        );
    }
    for number in [2, 501] {
        assert_eq!(
            session_result(
                &mut server,
                "Network.getResponseBody",
                &format!(r#"{{"requestId":"r{number}"}}"#)
            )["body"],
            "x"
        );
    }
    assert_eq!(
        session_error(&mut server, "Network.getResponseBody", r#"{"requestId":"open"}"#),
        server_error("Response body is not available")
    );
}

#[test]
fn session_commands_without_effect() {
    let mut server = attached_server();
    for method in [
        "Log.clear",
        "Console.enable",
        "Console.disable",
        "Console.clearMessages",
        "DOM.enable",
        "DOM.disable",
        "Network.disable",
        "Performance.enable",
        "Performance.setTimezone",
        "Emulation.setDeviceMetricsOverride",
        "Emulation.setAutomationOverride",
        "Page.setLifecycleEventsEnabled",
        "Network.continueInterceptedRequest",
    ] {
        assert_eq!(session_result(&mut server, method, "{}"), parse("{}"));
    }
    for method in ["Network.getCookies", "Storage.getCookies"] {
        assert_eq!(session_result(&mut server, method, "{}"), parse(r#"{"cookies":[]}"#));
    }
    assert_eq!(session_result(&mut server, "Console.getMessages", "{}"), parse(r#"{"messages":[]}"#));
    assert_eq!(session_result(&mut server, "Schema.getDomains", "{}"), parse(r#"{"domains":[]}"#));
    assert_eq!(
        session_result(&mut server, "Performance.getMetrics", "{}"),
        parse(r#"{"metrics":[{"name":"Timestamp","value":1.5}]}"#)
    );
    assert_eq!(
        session_result(&mut server, "Runtime.compileScript", "{}"),
        parse(r#"{"scriptId":"0"}"#)
    );
    for method in [
        "Page.printToPDF",
        "Page.startScreencast",
        "Page.captureSnapshot",
        "Network.setRequestInterception",
        "DOM.resolveNode",
        "DOM.getNodeForLocation",
    ] {
        assert_eq!(
            session_error(&mut server, method, "{}"),
            server_error(&format!("{method} is not supported by Servo"))
        );
    }
}

#[test]
fn the_page_tells_its_document() {
    let mut server = attached_server();
    assert_eq!(
        session_result(&mut server, "Page.getNavigationHistory", "{}"),
        parse(
            r#"{"index":0,"entries":[
                {"id":1,"url":"http://a/","title":"Title","userTypedURL":"http://a/"}]}"#
        )
    );
    let frame = r#"{"id":"page-0","loaderId":"","url":"http://a/","mimeType":"text/html",
        "securityOrigin":"http://a/#origin"}"#;
    assert_eq!(
        session_result(&mut server, "Page.getFrameTree", "{}"),
        parse(&format!(r#"{{"frameTree":{{"frame":{frame},"childFrames":[]}}}}"#))
    );
    assert_eq!(
        session_result(&mut server, "Page.getResourceTree", "{}"),
        parse(&format!(r#"{{"frameTree":{{"frame":{frame},"resources":[]}}}}"#))
    );
    let reaction = send(&mut server, 0, &command("Page.bringToFront", "{}"));
    assert!(matches!(reaction.request, Some(Request::Focus { webview_id: 700 })));
    assert_eq!(
        messages(&reaction.deliveries),
        vec![(0, parse(r#"{"id":5,"sessionId":"0","result":{}}"#))]
    );
}

#[test]
fn script_threads_are_told() {
    let mut server = attached_server();
    for (method, expected) in [
        ("Page.reload", ScriptAction::Reload),
        ("Page.goBack", ScriptAction::GoBack),
        ("Page.goForward", ScriptAction::GoForward),
    ] {
        let reaction = send(&mut server, 0, &command(method, "{}"));
        assert!(reaction.deliveries.is_empty());
        let Some(Request::Script { ticket, pipeline_id, action }) = reaction.request else {
            panic!("no request");
        };
        assert_eq!((pipeline_id, action), (70, expected));
        assert_eq!(
            messages(&server.finish_script(&ticket, true)),
            vec![(0, parse(r#"{"id":5,"sessionId":"0","result":{}}"#))]
        );
        assert_eq!(
            messages(&server.finish_script(&ticket, false)),
            vec![(
                0,
                parse(
                    r#"{"id":5,"sessionId":"0","error":{"code":-32000,"message":"Target is gone"}}"#
                )
            )]
        );
    }
}

#[test]
fn navigating() {
    let mut server = attached_server();
    assert_eq!(
        session_error(&mut server, "Page.navigate", "{}"),
        (-32600, "'url' parameter is required".to_owned())
    );
    let reaction = send(&mut server, 0, &command("Page.navigate", r#"{"url":"http://d/"}"#));
    let Some(Request::Navigate { ticket, frame_id, url, pipeline }) = reaction.request else {
        panic!("no request");
    };
    assert_eq!(url, "http://d/");
    assert_eq!(pipeline, Ok(70));
    let results = [
        (NavigateOutcome::Sent, r#"{"frameId":"page-0","loaderId":""}"#),
        (NavigateOutcome::Gone, r#"{"frameId":"page-0","errorText":"Target is gone"}"#),
        (NavigateOutcome::InvalidUrl, r#"{"frameId":"page-0","errorText":"ERR_INVALID_URL"}"#),
        (
            NavigateOutcome::Unavailable("why".to_owned()),
            r#"{"frameId":"page-0","errorText":"why"}"#,
        ),
    ];
    for (outcome, expected) in results {
        let answers = messages(&server.finish_navigate(&ticket, &frame_id, &outcome));
        assert_eq!(answers.len(), 1);
        assert_eq!(answers[0].1["result"], parse(expected));
    }
}

#[test]
fn evaluating() {
    let mut server = attached_server();
    assert_eq!(
        session_error(&mut server, "Runtime.evaluate", "{}"),
        (-32600, "'expression' parameter is required".to_owned())
    );
    let expressions = [
        ("Runtime.evaluate", r#"{"expression":"1+1"}"#, "1+1"),
        ("Runtime.runScript", r#"{"source":"2","expression":"3"}"#, "2"),
        ("Runtime.runScript", r#"{"expression":"3"}"#, "3"),
        (
            "Runtime.callFunctionOn",
            r#"{"functionDeclaration":"f","executionContextId":0,
                "arguments":[null,true,false,1,2.5,"a\"b",[1],{"value":1}]}"#,
            r#"(f).apply(undefined, [null, true, false, 1, 2.5, "a\"b", [1], {"value":1}])"#,
        ),
        (
            "Runtime.callFunctionOn",
            r#"{"functionDeclaration":"f","executionContextId":0}"#,
            "(f).apply(undefined, [])",
        ),
    ];
    for (method, params, expected) in expressions {
        let reaction = send(&mut server, 0, &command(method, params));
        let Some(Request::Evaluate { pipeline_id, expression, .. }) = reaction.request else {
            panic!("no request");
        };
        assert_eq!((pipeline_id, expression.as_str()), (70, expected));
    }
    assert_eq!(
        session_error(&mut server, "Runtime.callFunctionOn", "{}"),
        (-32600, "'functionDeclaration' parameter is required".to_owned())
    );
    assert_eq!(
        session_error(&mut server, "Runtime.callFunctionOn", r#"{"functionDeclaration":"f"}"#),
        server_error("Runtime.callFunctionOn only supports the 'executionContextId' flavor")
    );
    assert_eq!(
        session_error(
            &mut server,
            "Runtime.callFunctionOn",
            r#"{"functionDeclaration":"f","executionContextId":8}"#
        ),
        server_error("Cannot find execution context with given id")
    );
}

#[test]
fn evaluations_are_answered() {
    let mut server = attached_server();
    let reaction = send(&mut server, 0, &command("Runtime.evaluate", r#"{"expression":"1"}"#));
    let Some(Request::Evaluate { ticket, .. }) = reaction.request else {
        panic!("no request");
    };
    for (outcome, text) in [
        (EvaluateOutcome::NoChannel, "Could not create evaluation channel"),
        (EvaluateOutcome::Gone, "Target is gone"),
        (EvaluateOutcome::TimedOut, "Evaluation timed out"),
    ] {
        let answers = messages(&server.finish_evaluate(&ticket, &outcome));
        assert_eq!(answers[0].1["error"]["message"], text);
    }
    let replied = EvaluateOutcome::Replied {
        value: DebuggerValue::BooleanValue(true),
        has_exception: false,
        exception_message: None,
    };
    assert_eq!(
        messages(&server.finish_evaluate(&ticket, &replied)),
        vec![(
            0,
            parse(
                r#"{"id":5,"sessionId":"0","result":{"result":{"type":"boolean","value":true}}}"#
            )
        )]
    );
    let thrown = EvaluateOutcome::Replied {
        value: DebuggerValue::VoidValue,
        has_exception: true,
        exception_message: Some("boom".to_owned()),
    };
    let answers = messages(&server.finish_evaluate(&ticket, &thrown));
    let result = &answers[0].1["result"];
    assert_eq!(result["result"], parse(r#"{"type":"object","subtype":"error"}"#));
    assert_eq!(result["exceptionDetails"]["exception"]["description"], "boom");
}

fn node(unique_id: &str, num_children: usize) -> NodeInfo {
    NodeInfo {
        unique_id: unique_id.to_owned(),
        node_type: 1,
        node_name: unique_id.to_uppercase(),
        node_value: None,
        num_children,
        attrs: Vec::new(),
        is_displayed: true,
    }
}

fn leaf(unique_id: &str) -> NodeTree {
    NodeTree { info: node(unique_id, 0), children: Vec::new() }
}

#[test]
fn documents_are_shown() {
    let mut server = attached_server();
    let reaction = send(&mut server, 0, &command("DOM.getDocument", r#"{"depth":2}"#));
    let Some(Request::GetDocument { ticket, pipeline_id, depth }) = reaction.request else {
        panic!("no request");
    };
    assert_eq!((pipeline_id, depth), (70, 2));
    for (outcome, text) in [
        (DocumentOutcome::NoChannel, "Could not create DOM channel"),
        (DocumentOutcome::Gone, "Target is gone"),
        (DocumentOutcome::TimedOut, "Reading the document timed out"),
        (DocumentOutcome::NoDocument, "Could not read the document"),
    ] {
        let answers = messages(&server.finish_document(&ticket, pipeline_id, depth, &outcome));
        assert_eq!(answers[0].1["error"]["message"], text);
    }
    let mut body = node("body", 1);
    body.node_value = Some("v".to_owned());
    body.attrs = vec![
        Attribute { name: "id".to_owned(), value: "x".to_owned() },
        Attribute { name: "class".to_owned(), value: "y".to_owned() },
    ];
    body.is_displayed = false;
    let tree = NodeTree {
        info: node("html", 3),
        children: vec![
            leaf("head"),
            NodeTree {
                info: body,
                children: vec![NodeTree { info: node("p", 1), children: vec![leaf("b")] }],
            },
            leaf("foot"),
        ],
    };
    let outcome = DocumentOutcome::Read(tree);
    assert!(server.has_document_room(&outcome, depth));
    let answers = messages(&server.finish_document(&ticket, pipeline_id, depth, &outcome));
    assert_eq!(
        answers[0].1,
        parse(
            r#"{"id":5,"sessionId":"0","result":{"root":{
                "nodeId":0,"backendNodeId":0,"nodeType":1,"nodeName":"HTML","nodeValue":"",
                "childNodeCount":3,"attributes":[],"isDisplayed":true,"children":[
                    {"nodeId":1,"backendNodeId":1,"nodeType":1,"nodeName":"HEAD","nodeValue":"",
                        "childNodeCount":0,"attributes":[],"isDisplayed":true},
                    {"nodeId":2,"backendNodeId":2,"nodeType":1,"nodeName":"BODY","nodeValue":"v",
                        "childNodeCount":1,"attributes":["id","x","class","y"],"isDisplayed":false,
                        "children":[
                            {"nodeId":3,"backendNodeId":3,"nodeType":1,"nodeName":"P","nodeValue":"",
                                "childNodeCount":1,"attributes":[],"isDisplayed":true}
                        ]},
                    {"nodeId":4,"backendNodeId":4,"nodeType":1,"nodeName":"FOOT","nodeValue":"",
                        "childNodeCount":0,"attributes":[],"isDisplayed":true}
                ]}}}"#
        )
    );
    // The nodes can be asked for by their ids.
    let reaction = send(&mut server, 0, &command("DOM.requestChildNodes", r#"{"nodeId":3}"#));
    let Some(Request::GetChildren { ticket, node_id, pipeline_id, unique_id, depth }) =
        reaction.request
    else {
        panic!("no request");
    };
    assert_eq!((node_id, pipeline_id, unique_id.as_str(), depth), (3, 70, "p", 1));
    assert_eq!(
        messages(&server.finish_children(
            &ticket,
            node_id,
            pipeline_id,
            depth,
            &ChildrenOutcome::TimedOut
        )),
        vec![(
            0,
            parse(
                r#"{"id":5,"sessionId":"0","error":{"code":-32000,"message":"Reading the children timed out"}}"#
            )
        )]
    );
    let answers = messages(&server.finish_children(
        &ticket,
        node_id,
        pipeline_id,
        depth,
        &ChildrenOutcome::Unreadable,
    ));
    assert_eq!(answers[0].1["params"], parse(r#"{"parentId":3,"nodes":[]}"#));
    assert_eq!(answers[1].1, parse(r#"{"id":5,"sessionId":"0","result":{}}"#));
    let outcome = ChildrenOutcome::Read(vec![leaf("b")]);
    assert!(server.has_node_room(&outcome, depth));
    let answers = messages(&server.finish_children(&ticket, node_id, pipeline_id, depth, &outcome));
    assert_eq!(answers.len(), 2);
    assert_eq!(answers[0].1["method"], "DOM.setChildNodes");
    assert_eq!(answers[0].1["sessionId"], "0");
    assert_eq!(answers[0].1["params"]["parentId"], 3);
    assert_eq!(answers[0].1["params"]["nodes"][0]["nodeId"], 5);
    assert_eq!(answers[1].1, parse(r#"{"id":5,"sessionId":"0","result":{}}"#));
}

#[test]
fn children_are_shown_down_to_the_depth() {
    assert!(wants_children(&node("a", 1), 1));
    assert!(!wants_children(&node("a", 1), 0));
    assert!(!wants_children(&node("a", 1), -1));
    assert!(!wants_children(&node("a", 0), 1));
}

#[test]
fn nodes_that_cannot_be_shown() {
    let mut server = attached_server();
    for method in ["DOM.requestChildNodes", "DOM.getBoxModel"] {
        assert_eq!(
            session_error(&mut server, method, "{}"),
            (-32600, "'nodeId' parameter is required".to_owned())
        );
        assert_eq!(
            session_error(&mut server, method, r#"{"nodeId":0}"#),
            server_error("Could not find node with given id")
        );
    }
    let reaction = send(&mut server, 0, &command("DOM.getDocument", "{}"));
    let Some(Request::GetDocument { ticket, pipeline_id, depth }) = reaction.request else {
        panic!("no request");
    };
    assert_eq!(depth, 1);
    server.finish_document(&ticket, pipeline_id, depth, &DocumentOutcome::Read(leaf("html")));
    // The pipeline of the node is replaced.
    script(&mut server, global(7, 71, 700));
    assert_eq!(
        session_error(&mut server, "DOM.getBoxModel", r#"{"nodeId":0}"#),
        server_error("Target is not ready")
    );
    let answers = session_told(&mut server, "DOM.requestChildNodes", r#"{"nodeId":0}"#);
    assert_eq!(
        answers,
        vec![
            parse(
                r#"{"method":"DOM.setChildNodes","sessionId":"0","params":{"parentId":0,"nodes":[]}}"#
            ),
            parse(r#"{"id":5,"sessionId":"0","result":{}}"#),
        ]
    );
}

#[test]
fn depths_are_cut_to_size() {
    let mut server = attached_server();
    let reaction = send(&mut server, 0, &command("DOM.getDocument", r#"{"depth":4294967298}"#));
    let Some(Request::GetDocument { ticket, pipeline_id, depth }) = reaction.request else {
        panic!("no request");
    };
    assert_eq!(depth, 2);
    server.finish_document(&ticket, pipeline_id, depth, &DocumentOutcome::Read(leaf("html")));
    for (asked, expected) in [("-4", 1), ("3", 3), ("2147483648", i32::MIN)] {
        let reaction = send(
            &mut server,
            0,
            &command("DOM.requestChildNodes", &format!(r#"{{"nodeId":0,"depth":{asked}}}"#)),
        );
        let Some(Request::GetChildren { depth, .. }) = reaction.request else {
            panic!("no request");
        };
        assert_eq!(depth, expected);
    }
}

#[test]
fn box_models_are_anchored_at_the_origin() {
    let mut server = attached_server();
    let reaction = send(&mut server, 0, &command("DOM.getDocument", "{}"));
    let Some(Request::GetDocument { ticket, pipeline_id, depth }) = reaction.request else {
        panic!("no request");
    };
    server.finish_document(&ticket, pipeline_id, depth, &DocumentOutcome::Read(leaf("html")));
    let reaction = send(&mut server, 0, &command("DOM.getBoxModel", r#"{"nodeId":0}"#));
    let Some(Request::GetLayout { ticket, pipeline_id, unique_id }) = reaction.request else {
        panic!("no request");
    };
    assert_eq!((pipeline_id, unique_id.as_str()), (70, "html"));
    for (outcome, text) in [
        (LayoutOutcome::NoChannel, "Could not create layout channel"),
        (LayoutOutcome::Gone, "Target is gone"),
        (LayoutOutcome::TimedOut, "Computing the box model timed out"),
        (LayoutOutcome::NoLayout, "Could not compute the box model of the node"),
    ] {
        let answers = messages(&server.finish_layout(&ticket, &outcome));
        assert_eq!(answers[0].1["error"]["message"], text);
    }
    let outcome = LayoutOutcome::Computed {
        width: Value::from(2.5f32),
        height: Value::from(4.0f32),
    };
    let answers = messages(&server.finish_layout(&ticket, &outcome));
    let quad = "[0.0,0.0,2.5,0.0,2.5,4.0,0.0,4.0]";
    assert_eq!(
        answers[0].1["result"],
        parse(&format!(
            r#"{{"model":{{"content":{quad},"padding":{quad},"border":{quad},"margin":{quad},
                "width":2.5,"height":4.0}}}}"#
        ))
    );
}

#[test]
fn screenshots_are_sent_as_png_in_base64() {
    let mut server = attached_server();
    let reaction = send(
        &mut server,
        0,
        &command(
            "Page.captureScreenshot",
            r#"{"clip":{"x":1,"y":2.5,"width":3,"height":4}}"#,
        ),
    );
    let Some(Request::Screenshot { ticket, webview_id, clip }) = reaction.request else {
        panic!("no request");
    };
    assert_eq!(webview_id, 700);
    let clip = clip.unwrap();
    assert_eq!(
        (clip.x.as_f64(), clip.y.as_f64(), clip.width.as_f64(), clip.height.as_f64()),
        (Some(1.0), Some(2.5), Some(3.0), Some(4.0))
    );
    for params in ["{}", r#"{"clip":{"x":1,"y":2,"width":3}}"#, r#"{"clip":{"x":"1","y":2,"width":3,"height":4}}"#] {
        let reaction = send(&mut server, 0, &command("Page.captureScreenshot", params));
        assert!(matches!(reaction.request, Some(Request::Screenshot { clip: None, .. })));
    }
    let outcome = ScreenshotOutcome::Taken { width: 1, height: 1, rgba: vec![1, 2, 3, 4] };
    let answers = messages(&server.finish_screenshot(&ticket, outcome));
    let data = answers[0].1["result"]["data"].as_str().unwrap();
    // The signature of a PNG file, in base64.
    assert!(data.starts_with("iVBORw0KGgo"));
    let outcome = ScreenshotOutcome::Taken { width: 0, height: 0, rgba: Vec::new() };
    let answers = messages(&server.finish_screenshot(&ticket, outcome));
    let text = answers[0].1["error"]["message"].as_str().unwrap();
    assert!(text.starts_with("Could not encode the screenshot: "));
    let answers =
        messages(&server.finish_screenshot(&ticket, ScreenshotOutcome::Failed("Why".to_owned())));
    assert_eq!(answers[0].1["error"]["message"], "Could not take a screenshot: Why");
    let answers = messages(&server.finish_screenshot(&ticket, ScreenshotOutcome::TimedOut));
    assert_eq!(answers[0].1["error"]["message"], "Taking a screenshot timed out");
}

#[test]
fn images_are_answered() {
    let mut server = attached_server();
    let reaction = send(&mut server, 0, &command("Page.captureScreenshot", "{}"));
    let Some(Request::Screenshot { ticket, .. }) = reaction.request else {
        panic!("no request");
    };
    server.answer_image(&ticket, Ok(vec![0, 1, 2]));
    server.answer_image(&ticket, Err("E".to_owned()));
    let answers = messages(&server.finish_script(&ticket, true));
    assert_eq!(answers.len(), 3);
    assert_eq!(answers[0].1["result"], parse(r#"{"data":"AAEC"}"#));
    assert_eq!(answers[1].1["error"]["message"], "Could not encode the screenshot: E");
}

#[test]
fn discovery_endpoints() {
    let server = attached_server();
    let headers = [("host".to_owned(), "h:1".to_owned())];
    let user_agent = "Chrome/141.0";
    let body = |path: &str, headers: &[(String, String)]| {
        let response = server.discovery_response(path, headers, user_agent);
        let (head, body) = response.split_once("\r\n\r\n").unwrap();
        assert!(head.contains(&format!("Content-Length: {}", body.len())));
        let status = head.lines().next().unwrap().to_owned();
        (status, parse(body))
    };
    let (status, version) = body("/json/version", &headers);
    assert_eq!(status, "HTTP/1.1 200 OK");
    assert_eq!(
        version,
        parse(
            r#"{"Browser":"Chrome/141.0.0.0","Protocol-Version":"1.3","User-Agent":"Chrome/141.0",
                "V8-Version":"141.0.0.0","WebKit-Version":"537.36 (@0)","jsVersion":"141.0.0.0",
                "webSocketDebuggerUrl":"ws://127.0.0.1:9222/devtools/browser/b","host":"h:1"}"#
        )
    );
    let list = parse(
        r#"[{"description":"","id":"page-0","title":"Title","type":"page","url":"http://a/",
            "devtoolsFrontendUrl":"devtools://devtools/bundled/inspector.html?ws=h:1/devtools/page/page-0",
            "webSocketDebuggerUrl":"ws://h:1/devtools/page/page-0"}]"#,
    );
    assert_eq!(body("/json", &headers), ("HTTP/1.1 200 OK".to_owned(), list.clone()));
    assert_eq!(body("/json/list", &headers), ("HTTP/1.1 200 OK".to_owned(), list));
    assert_eq!(body("/json/version", &[]).1["host"], "127.0.0.1");
    assert_eq!(
        body("/json/list/", &headers),
        ("HTTP/1.1 404 Not Found".to_owned(), parse(r#"{"error":"Unknown endpoint"}"#))
    );
}

#[test]
fn navigations_are_decided() {
    assert!(matches!(navigation_pipeline(true, Ok(7)), Ok(7)));
    assert!(matches!(navigation_pipeline(false, Ok(7)), Err(NavigateOutcome::InvalidUrl)));
    assert!(matches!(
        navigation_pipeline(false, Err("why".to_owned())),
        Err(NavigateOutcome::InvalidUrl)
    ));
    match navigation_pipeline(true, Err("why".to_owned())) {
        Err(NavigateOutcome::Unavailable(reason)) => assert_eq!(reason, "why"),
        _ => panic!("not unavailable"),
    }
}

/// The messages with an id.
fn replies(messages: &[(u64, Value)]) -> Vec<&Value> {
    messages.iter().map(|(_, value)| value).filter(|value| value.get("id").is_some()).collect()
}

#[test]
fn commands_are_answered_once() {
    let mut server = attached_server();
    for method in [
        "Page.enable",
        "Runtime.enable",
        "Target.getTargets",
        "Target.setAutoAttach",
        "Target.setDiscoverTargets",
        "Network.getResponseBody",
        "Foo.bar",
    ] {
        let answers = messages(&send(&mut server, 0, &command(method, "{}")).deliveries);
        let replies = replies(&answers);
        assert_eq!(replies.len(), 1);
        assert_eq!(replies[0]["id"], 5);
        assert_ne!(replies[0].get("result").is_some(), replies[0].get("error").is_some());
        let silent = format!(r#"{{"sessionId":"0","method":"{method}"}}"#);
        let answers = messages(&send(&mut server, 0, &silent).deliveries);
        assert!(self::replies(&answers).is_empty());
    }
    let reaction = send(&mut server, 0, &command("Page.reload", "{}"));
    assert!(reaction.deliveries.is_empty());
    let Some(Request::Script { ticket, .. }) = reaction.request else {
        panic!("no request");
    };
    assert_eq!(replies(&messages(&server.finish_script(&ticket, true))).len(), 1);
    let reaction = send(&mut server, 0, r#"{"sessionId":"0","method":"Page.reload"}"#);
    let Some(Request::Script { ticket, .. }) = reaction.request else {
        panic!("no request");
    };
    assert!(server.finish_script(&ticket, true).is_empty());
}

#[test]
fn browser_events_answer_nobody_else() {
    let mut server = attached_server();
    told(
        &mut server,
        0,
        r#"{"id":1,"method":"Target.setDiscoverTargets","params":{"discover":true}}"#,
    );
    server.finish_create_target(0, 4, CreateOutcome::Created(800));
    assert!(replies(&script(&mut server, global(7, 71, 700))).is_empty());
    let events = script(&mut server, global(8, 80, 800));
    assert_eq!(events.len(), 2);
    assert_eq!(replies(&events), vec![&parse(r#"{"id":4,"result":{"targetId":"page-1"}}"#)]);
}
