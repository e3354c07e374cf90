use cdp_server::protocol::{
    console_log_level_to_cdp_level, console_log_level_to_cdp_type, debugger_value_to_remote_object,
    debugger_value_to_text, evaluate_reply_to_remote_object, event, header_list_to_json,
    headers_to_cdp_json, mime_type_from_content_type, mime_type_from_headers, stack_trace_to_json, status_text_for, CdpError, ConsoleLogLevel,
    DebuggerValue, Number, ObjectPreview, PropertyDescriptor, StackFrame,
};
use cdp_server::session::{cdp_value_to_js_source, encoded_body_reply};
use http::header::HeaderValue;
use http::HeaderMap;
use serde_json::Value;

fn parse(text: &str) -> Value {
    serde_json::from_str(text).unwrap()
}

fn number(value: f64) -> DebuggerValue {
    DebuggerValue::NumberValue(if value.is_finite() {
        Number::Finite { value: Value::from(value), text: value.to_string() }
    } else if value.is_nan() {
        Number::NaN
    } else if value > 0.0 {
        Number::Infinity
    } else {
        Number::NegativeInfinity
    })
}

#[test]
fn test_debugger_value_to_remote_object_primitives() {
    assert_eq!(
        debugger_value_to_remote_object(&DebuggerValue::VoidValue),
        parse(r#"{ "type": "undefined" }"#)
    );
    assert_eq!(
        debugger_value_to_remote_object(&DebuggerValue::BooleanValue(true)),
        parse(r#"{ "type": "boolean", "value": true }"#)
    );
    assert_eq!(
        debugger_value_to_remote_object(&number(42.0)),
        parse(r#"{ "type": "number", "value": 42.0 }"#)
    );
    assert_eq!(
        debugger_value_to_remote_object(&DebuggerValue::StringValue("hi".into())),
        parse(r#"{ "type": "string", "value": "hi", "description": "hi" }"#)
    );
}

#[test]
fn test_debugger_value_non_finite_numbers() {
    assert_eq!(
        debugger_value_to_remote_object(&number(f64::NAN)),
        parse(r#"{ "type": "number", "value": "NaN", "unserializableValue": "NaN" }"#)
    );
    assert_eq!(
        debugger_value_to_remote_object(&number(f64::INFINITY)),
        parse(r#"{ "type": "number", "value": "Infinity", "unserializableValue": "Infinity" }"#)
    );
}

#[test]
fn test_debugger_value_null() {
    assert_eq!(
        debugger_value_to_remote_object(&DebuggerValue::NullValue(true)),
        parse(r#"{ "type": "object", "subtype": "null", "value": null }"#)
    );
}

#[test]
fn test_evaluate_reply_exception() {
    let (object, exception) = evaluate_reply_to_remote_object(
        &DebuggerValue::VoidValue,
        true,
        Some("ReferenceError: foo is not defined"),
    );
    assert_eq!(exception.unwrap()["text"], "Uncaught");
    assert_eq!(object["subtype"], "error");
}

#[test]
fn test_console_log_level_mapping() {
    assert_eq!(console_log_level_to_cdp_type(&ConsoleLogLevel::Warn), "warning");
    assert_eq!(console_log_level_to_cdp_type(&ConsoleLogLevel::Error), "error");
    assert_eq!(console_log_level_to_cdp_level(&ConsoleLogLevel::Error), "error");
    assert_eq!(console_log_level_to_cdp_level(&ConsoleLogLevel::Log), "info");
}

#[test]
fn test_headers_to_cdp_json() {
    let mut headers = HeaderMap::new();
    headers.insert("content-type", "text/html".parse().unwrap());
    headers.append("set-cookie", "a=1".parse().unwrap());
    headers.append("set-cookie", "b=2".parse().unwrap());

    let json = headers_to_cdp_json(Some(&headers));
    assert_eq!(json["content-type"], "text/html");
    assert_eq!(json["set-cookie"], "a=1, b=2");
}

#[test]
fn test_mime_type_from_headers() {
    let mut headers = HeaderMap::new();
    headers.insert("content-type", "text/html; charset=utf-8".parse().unwrap());
    assert_eq!(mime_type_from_headers(Some(&headers)), "text/html");
    assert_eq!(mime_type_from_headers(None), "");
}

#[test]
fn negative_infinity_is_sent_as_a_string() {
    assert_eq!(
        debugger_value_to_remote_object(&number(f64::NEG_INFINITY)),
        parse(r#"{ "type": "number", "value": "-Infinity", "unserializableValue": "-Infinity" }"#)
    );
}

#[test]
fn objects_are_previewed() {
    let value = DebuggerValue::ObjectValue {
        class: "Foo".into(),
        preview: Some(ObjectPreview {
            kind: "Object".into(),
            own_properties: Some(vec![
                PropertyDescriptor { name: "a".into(), value: number(1.5) },
                PropertyDescriptor { name: "b".into(), value: number(f64::NAN) },
                PropertyDescriptor {
                    name: "c".into(),
                    value: DebuggerValue::ObjectValue {
                        class: "Bar".into(),
                        preview: None,
                        own_property_length: None,
                    },
                },
                PropertyDescriptor { name: "d".into(), value: DebuggerValue::NullValue(false) },
            ]),
        }),
        own_property_length: Some(4),
    };
    assert_eq!(
        debugger_value_to_remote_object(&value),
        parse(
            r#"{
                "type": "object", "className": "Foo", "description": "Foo",
                "ownPropertiesLength": 4,
                "preview": {
                    "type": "Object", "overflow": false,
                    "properties": [
                        { "name": "a", "type": "number", "value": 1.5 },
                        { "name": "b", "type": "number", "value": null },
                        { "name": "c", "type": "object", "value": "Bar" },
                        { "name": "d", "type": "object", "value": null }
                    ]
                }
            }"#
        )
    );
}

#[test]
fn a_preview_may_have_no_properties() {
    let value = DebuggerValue::ObjectValue {
        class: "Foo".into(),
        preview: Some(ObjectPreview { kind: "Object".into(), own_properties: None }),
        own_property_length: None,
    };
    assert_eq!(
        debugger_value_to_remote_object(&value)["preview"],
        parse(r#"{ "type": "Object", "overflow": false, "properties": [] }"#)
    );
}

#[test]
fn values_as_plain_text() {
    assert_eq!(debugger_value_to_text(&DebuggerValue::VoidValue), "undefined");
    assert_eq!(debugger_value_to_text(&DebuggerValue::NullValue(true)), "null");
    assert_eq!(debugger_value_to_text(&DebuggerValue::BooleanValue(false)), "false");
    assert_eq!(debugger_value_to_text(&DebuggerValue::BooleanValue(true)), "true");
    assert_eq!(debugger_value_to_text(&number(2.5)), "2.5");
    assert_eq!(debugger_value_to_text(&number(f64::NAN)), "NaN");
    assert_eq!(debugger_value_to_text(&number(f64::INFINITY)), "Infinity");
    assert_eq!(debugger_value_to_text(&number(f64::NEG_INFINITY)), "-Infinity");
    assert_eq!(debugger_value_to_text(&DebuggerValue::StringValue("x".into())), "x");
    assert_eq!(
        debugger_value_to_text(&DebuggerValue::ObjectValue {
            class: "Foo".into(),
            preview: None,
            own_property_length: None,
        }),
        "Foo"
    );
}

#[test]
fn exceptions_have_a_description() {
    let (_, details) = evaluate_reply_to_remote_object(&DebuggerValue::VoidValue, true, None);
    assert_eq!(
        details.unwrap(),
        parse(
            r#"{
                "exceptionId": 1, "text": "Uncaught", "lineNumber": 0, "columnNumber": 0,
                "exception": {
                    "type": "object", "subtype": "error", "className": "Error",
                    "description": "Exception"
                }
            }"#
        )
    );
    let (object, details) =
        evaluate_reply_to_remote_object(&DebuggerValue::BooleanValue(true), false, None);
    assert_eq!(object, parse(r#"{ "type": "boolean", "value": true }"#));
    assert!(details.is_none());
}

#[test]
fn all_console_levels() {
    let levels = [
        (ConsoleLogLevel::Log, "log", "info"),
        (ConsoleLogLevel::Debug, "debug", "info"),
        (ConsoleLogLevel::Info, "info", "info"),
        (ConsoleLogLevel::Warn, "warning", "warning"),
        (ConsoleLogLevel::Error, "error", "error"),
        (ConsoleLogLevel::Trace, "trace", "info"),
        (ConsoleLogLevel::Dir, "dir", "info"),
    ];
    for (level, kind, severity) in levels {
        assert_eq!(console_log_level_to_cdp_type(&level), kind);
        assert_eq!(console_log_level_to_cdp_level(&level), severity);
    }
}

#[test]
fn headers_that_are_no_text_are_left_out() {
    let mut headers = HeaderMap::new();
    headers.append("x-a", "one".parse().unwrap());
    headers.append("x-a", http::header::HeaderValue::from_bytes(&[0xFF]).unwrap());
    headers.append("x-a", "three".parse().unwrap());
    headers.append("x-b", http::header::HeaderValue::from_bytes(b"a\tb").unwrap());
    headers.append("X-Upper", "c".parse().unwrap());
    assert_eq!(
        headers_to_cdp_json(Some(&headers)),
        parse(r#"{ "x-a": "one, three", "x-b": "a\tb", "x-upper": "c" }"#)
    );
    assert_eq!(headers_to_cdp_json(None), parse("{}"));
}

#[test]
fn the_first_content_type_counts() {
    let mut headers = HeaderMap::new();
    headers.append("content-type", " application/json ".parse().unwrap());
    headers.append("content-type", "text/html".parse().unwrap());
    assert_eq!(mime_type_from_headers(Some(&headers)), "application/json");
    let mut headers = HeaderMap::new();
    headers.append("content-type", http::header::HeaderValue::from_bytes(&[0x80]).unwrap());
    assert_eq!(mime_type_from_headers(Some(&headers)), "");
    assert_eq!(mime_type_from_headers(Some(&HeaderMap::new())), "");
}

#[test]
fn stack_frames_are_zero_based() {
    let frames = [
        StackFrame {
            function_name: "f".into(),
            filename: "a.js".into(),
            line_number: 3,
            column_number: 1,
        },
        StackFrame {
            function_name: "".into(),
            filename: "b.js".into(),
            line_number: 0,
            column_number: 7,
        },
    ];
    assert_eq!(
        stack_trace_to_json(Some(&frames)).unwrap(),
        parse(
            r#"{ "callFrames": [
                { "functionName": "f", "scriptId": "0", "url": "a.js", "lineNumber": 2, "columnNumber": 0 },
                { "functionName": "", "scriptId": "0", "url": "b.js", "lineNumber": 0, "columnNumber": 6 }
            ] }"#
        )
    );
    assert!(stack_trace_to_json(Some(&[])).is_none());
    assert!(stack_trace_to_json(None).is_none());
}

#[test]
fn errors_as_json() {
    assert_eq!(
        CdpError::method_not_found("Foo.bar").to_json(),
        parse(r#"{ "code": -32601, "message": "'Foo.bar' wasn't found" }"#)
    );
    assert_eq!(
        CdpError::server("no").to_json(),
        parse(r#"{ "code": -32000, "message": "no" }"#)
    );
    assert_eq!(
        CdpError::invalid_params("bad").to_json(),
        parse(r#"{ "code": -32600, "message": "bad" }"#)
    );
    assert_eq!(
        event("A.b", parse("[1]")),
        parse(r#"{ "method": "A.b", "params": [1] }"#)
    );
}

#[test]
fn status_texts() {
    assert_eq!(status_text_for(200), "OK");
    assert_eq!(status_text_for(404), "Not Found");
    assert_eq!(status_text_for(503), "Service Unavailable");
    assert_eq!(status_text_for(418), "");
    assert_eq!(status_text_for(0), "");
}

#[test]
fn lists_of_headers_are_joined_by_name() {
    let header = |name: &str, value: &str| (name.to_owned(), HeaderValue::from_str(value).unwrap());
    assert_eq!(
        header_list_to_json(&[header("A", "1"), header("b", "2"), header("a", "3")]),
        parse(r#"{"a":"1, 3","b":"2"}"#)
    );
    assert_eq!(header_list_to_json(&[]), parse("{}"));
}

#[test]
fn content_types_without_their_parameters() {
    assert_eq!(mime_type_from_content_type(" text/html ; charset=utf-8"), "text/html");
    assert_eq!(mime_type_from_content_type("image/png"), "image/png");
    assert_eq!(mime_type_from_content_type(""), "");
}

#[test]
fn replies_with_a_body() {
    assert_eq!(
        encoded_body_reply("AA==", true),
        parse(r#"{"body":"AA==","base64Encoded":true}"#)
    );
}

#[test]
fn values_as_javascript_literals() {
    for (value, source) in [
        ("null", "null"),
        ("true", "true"),
        ("-3", "-3"),
        ("1.5", "1.5"),
        (r#""a\n""#, r#""a\n""#),
        ("[ 1, {\"b\": 2} ]", r#"[1,{"b":2}]"#),
    ] {
        assert_eq!(cdp_value_to_js_source(&parse(value)), source);
    }
}
