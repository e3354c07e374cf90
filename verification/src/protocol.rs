//! Helpers for building [Chrome DevTools Protocol](https://chromedevtools.github.io/devtools-protocol/)
//! messages: converting browser values to their JSON counterparts and
//! constructing events.
use http::header::HeaderValue;
use http::HeaderMap;
use serde_json::Value;
use vstd::prelude::*;

use crate::headers;
use crate::json;
use crate::json::Json;
use crate::json::Members;
use crate::text;

verus! {

/// The JSON-RPC error codes in use.
pub const ERROR_METHOD_NOT_FOUND: i64 = -32601;

pub const ERROR_INVALID_REQUEST: i64 = -32600;

pub const ERROR_SERVER_ERROR: i64 = -32000;

/// A method invocation error that is reported back to the client.
#[derive(Clone, Debug, Eq, PartialEq)]
pub struct CdpError {
    pub code: i64,
    pub message: String,
}

/// What is said of a method that does not exist.
pub open spec fn not_found_text(method: Seq<char>) -> Seq<char> {
    "'"@ + method + "' wasn't found"@
}

/// The `error` member of a reply.
pub open spec fn error_json(code: i64, message: Seq<char>) -> Json {
    Json::Object(map!["code"@ => Json::Int(code as int), "message"@ => Json::Text(message)])
}

impl CdpError {
    /// The method does not exist.
    pub fn method_not_found(method: &str) -> (error: Self)
        ensures
            error.code == ERROR_METHOD_NOT_FOUND,
            error.message@ == not_found_text(method@),
    {
        let mut message = "'".to_string();
        message.push_str(method);
        message.push_str("' wasn't found");
        assert(message@ =~= not_found_text(method@));
        CdpError { code: ERROR_METHOD_NOT_FOUND, message }
    }

    /// The method failed.
    pub fn server(message: &str) -> (error: Self)
        ensures
            error.code == ERROR_SERVER_ERROR,
            error.message@ == message@,
    {
        CdpError { code: ERROR_SERVER_ERROR, message: message.to_string() }
    }

    /// The parameters are not what the method takes.
    pub fn invalid_params(message: &str) -> (error: Self)
        ensures
            error.code == ERROR_INVALID_REQUEST,
            error.message@ == message@,
    {
        CdpError { code: ERROR_INVALID_REQUEST, message: message.to_string() }
    }

    /// Serializes this error into the `error` member of a reply.
    pub fn to_json(&self) -> (value: Value)
        ensures
            json::json_of(value) == error_json(self.code, self.message@),
    {
        Members::new().with("code", json::integer(self.code)).with(
            "message",
            json::string(self.message.as_str()),
        ).value()
    }
}

/// An event message.
pub open spec fn event_json(method: Seq<char>, params: Json) -> Json {
    Json::Object(map!["method"@ => Json::Text(method), "params"@ => params])
}

/// Builds an event message, i.e. a message without an `id`.
pub fn event(method: &str, params: Value) -> (value: Value)
    ensures
        json::json_of(value) == event_json(method@, json::json_of(params)),
{
    Members::new().with("method", json::string(method)).with("params", params).value()
}

/// A JavaScript number.
pub enum Number {
    /// A finite number, as a JSON number and in JavaScript notation.
    Finite { value: Value, text: String },
    NaN,
    Infinity,
    NegativeInfinity,
}

/// A JavaScript value, as far as it is reported to a debugger.
pub enum DebuggerValue {
    VoidValue,
    NullValue(bool),
    BooleanValue(bool),
    NumberValue(Number),
    StringValue(String),
    ObjectValue {
        class: String,
        preview: Option<ObjectPreview>,
        own_property_length: Option<u32>,
    },
}

/// What is shown of an object without expanding it.
pub struct ObjectPreview {
    pub kind: String,
    pub own_properties: Option<Vec<PropertyDescriptor>>,
}

/// A property in a preview.
pub struct PropertyDescriptor {
    pub name: String,
    pub value: DebuggerValue,
}

/// The notation of a number that JSON cannot represent.
pub open spec fn non_finite_text(number: Number) -> Seq<char> {
    match number {
        Number::NaN => "NaN"@,
        Number::Infinity => "Infinity"@,
        _ => "-Infinity"@,
    }
}

/// The remote object type name of a value.
pub open spec fn object_type(value: DebuggerValue) -> Seq<char> {
    match value {
        DebuggerValue::VoidValue => "undefined"@,
        DebuggerValue::NullValue(_) => "object"@,
        DebuggerValue::BooleanValue(_) => "boolean"@,
        DebuggerValue::NumberValue(_) => "number"@,
        DebuggerValue::StringValue(_) => "string"@,
        DebuggerValue::ObjectValue { .. } => "object"@,
    }
}

/// A value inside a preview, where nested objects are represented by their
/// class name only and numbers that JSON cannot represent are null.
pub open spec fn leaf_json(value: DebuggerValue) -> Json {
    match value {
        DebuggerValue::VoidValue => Json::Null,
        DebuggerValue::NullValue(_) => Json::Null,
        DebuggerValue::BooleanValue(truth) => Json::Bool(truth),
        DebuggerValue::NumberValue(Number::Finite { value, .. }) => json::json_of(value),
        DebuggerValue::NumberValue(_) => Json::Null,
        DebuggerValue::StringValue(string) => Json::Text(string@),
        DebuggerValue::ObjectValue { class, .. } => Json::Text(class@),
    }
}

/// A property in a preview.
pub open spec fn property_json(property: PropertyDescriptor) -> Json {
    Json::Object(
        map![
            "name"@ => Json::Text(property.name@),
            "type"@ => Json::Text(object_type(property.value)),
            "value"@ => leaf_json(property.value),
        ],
    )
}

/// The properties in a preview.
pub open spec fn preview_properties(preview: ObjectPreview) -> Seq<Json> {
    match preview.own_properties {
        Some(properties) => properties@.map_values(
            |property: PropertyDescriptor| property_json(property),
        ),
        None => Seq::empty(),
    }
}

/// The `ObjectPreview` structure.
pub open spec fn preview_json(preview: ObjectPreview) -> Json {
    Json::Object(
        map![
            "type"@ => Json::Text(preview.kind@),
            "overflow"@ => Json::Bool(false),
            "properties"@ => Json::Array(preview_properties(preview)),
        ],
    )
}

/// The members of the `RemoteObject` of an object.
pub open spec fn object_members(
    class: Seq<char>,
    preview: Option<ObjectPreview>,
    own_property_length: Option<u32>,
) -> Map<Seq<char>, Json> {
    let members = map![
        "type"@ => Json::Text("object"@),
        "className"@ => Json::Text(class),
        "description"@ => Json::Text(class),
    ];
    let members = match own_property_length {
        Some(length) => members.insert("ownPropertiesLength"@, Json::Int(length as int)),
        None => members,
    };
    match preview {
        Some(preview) => members.insert("preview"@, preview_json(preview)),
        None => members,
    }
}

/// The `RemoteObject` of a value.
pub open spec fn remote_object(value: DebuggerValue) -> Json {
    Json::Object(
        match value {
            DebuggerValue::VoidValue => map!["type"@ => Json::Text("undefined"@)],
            DebuggerValue::NullValue(_) => map![
                "type"@ => Json::Text("object"@),
                "subtype"@ => Json::Text("null"@),
                "value"@ => Json::Null,
            ],
            DebuggerValue::BooleanValue(truth) => map![
                "type"@ => Json::Text("boolean"@),
                "value"@ => Json::Bool(truth),
            ],
            DebuggerValue::NumberValue(Number::Finite { value, .. }) => map![
                "type"@ => Json::Text("number"@),
                "value"@ => json::json_of(value),
            ],
            DebuggerValue::NumberValue(number) => map![
                "type"@ => Json::Text("number"@),
                "value"@ => Json::Text(non_finite_text(number)),
                "unserializableValue"@ => Json::Text(non_finite_text(number)),
            ],
            DebuggerValue::StringValue(string) => map![
                "type"@ => Json::Text("string"@),
                "value"@ => Json::Text(string@),
                "description"@ => Json::Text(string@),
            ],
            DebuggerValue::ObjectValue { class, preview, own_property_length } => object_members(
                class@,
                preview,
                own_property_length,
            ),
        },
    )
}

/// The `RemoteObject` of a number that JSON cannot represent.
fn non_finite_object(description: &str) -> (value: Value)
    ensures
        json::json_of(value) == Json::Object(
            map![
                "type"@ => Json::Text("number"@),
                "value"@ => Json::Text(description@),
                "unserializableValue"@ => Json::Text(description@),
            ],
        ),
{
    Members::new().with("type", json::string("number")).with(
        "value",
        json::string(description),
    ).with("unserializableValue", json::string(description)).value()
}

/// Converts a [`DebuggerValue`] into a `RemoteObject`. Mirrors the way
/// Chromium serializes evaluation results, including its quirks for
/// non-finite numbers (which are sent as strings).
pub fn debugger_value_to_remote_object(value: &DebuggerValue) -> (result: Value)
    ensures
        json::json_of(result) == remote_object(*value),
{
    match value {
        DebuggerValue::VoidValue => Members::new().with("type", json::string("undefined")).value(),
        DebuggerValue::NullValue(_) => Members::new().with("type", json::string("object")).with(
            "subtype",
            json::string("null"),
        ).with("value", json::null()).value(),
        DebuggerValue::BooleanValue(truth) => Members::new().with(
            "type",
            json::string("boolean"),
        ).with("value", json::boolean(*truth)).value(),
        DebuggerValue::NumberValue(number) => match number {
            Number::Finite { value, .. } => Members::new().with(
                "type",
                json::string("number"),
            ).with("value", value.clone()).value(),
            // `Infinity` and `NaN` cannot be represented in JSON.
            Number::NaN => non_finite_object("NaN"),
            Number::Infinity => non_finite_object("Infinity"),
            Number::NegativeInfinity => non_finite_object("-Infinity"),
        },
        DebuggerValue::StringValue(string) => Members::new().with(
            "type",
            json::string("string"),
        ).with("value", json::string(string.as_str())).with(
            "description",
            json::string(string.as_str()),
        ).value(),
        DebuggerValue::ObjectValue { class, preview, own_property_length } => {
            let mut object = Members::new().with("type", json::string("object")).with(
                "className",
                json::string(class.as_str()),
            ).with("description", json::string(class.as_str()));
            if let Some(length) = own_property_length {
                object = object.with("ownPropertiesLength", json::unsigned(*length as u64));
            }
            if let Some(preview) = preview {
                object = object.with("preview", object_preview_to_json(preview));
            }
            object.value()
        },
    }
}

/// Converts an [`ObjectPreview`] into the `ObjectPreview` structure.
fn object_preview_to_json(preview: &ObjectPreview) -> (value: Value)
    ensures
        json::json_of(value) == preview_json(*preview),
{
    let mut properties: Vec<Value> = Vec::new();
    let ghost all = preview_properties(*preview);
    if let Some(own) = &preview.own_properties {
        let mut i: usize = 0;
        while i < own.len()
            invariant
                i <= own@.len(),
                all == own@.map_values(|property: PropertyDescriptor| property_json(property)),
                json::jsons(properties@) == all.take(i as int),
            decreases own@.len() - i,
        {
            let ghost done = properties@;
            let property = &own[i];
            properties.push(
                Members::new().with("name", json::string(property.name.as_str())).with(
                    "type",
                    json::string(remote_object_type(&property.value)),
                ).with("value", debugger_value_to_json_leaf(&property.value)).value(),
            );
            assert(json::jsons(properties@) =~= json::jsons(done).push(
                property_json(own@[i as int]),
            ));
            i += 1;
            assert(all.take(i as int) =~= all.take(i - 1).push(all[i - 1]));
        }
    }
    assert(json::jsons(properties@) =~= all);
    Members::new().with("type", json::string(preview.kind.as_str())).with(
        "overflow",
        json::boolean(false),
    ).with("properties", json::array(properties)).value()
}

/// A simplified [`DebuggerValue`] to JSON conversion used inside previews,
/// where nested objects are represented by their class name only.
fn debugger_value_to_json_leaf(value: &DebuggerValue) -> (result: Value)
    ensures
        json::json_of(result) == leaf_json(*value),
{
    match value {
        DebuggerValue::VoidValue | DebuggerValue::NullValue(_) => json::null(),
        DebuggerValue::BooleanValue(truth) => json::boolean(*truth),
        DebuggerValue::NumberValue(number) => match number {
            Number::Finite { value, .. } => value.clone(),
            _ => json::null(),
        },
        DebuggerValue::StringValue(string) => json::string(string.as_str()),
        DebuggerValue::ObjectValue { class, .. } => json::string(class.as_str()),
    }
}

/// Returns the remote object type name for a [`DebuggerValue`].
fn remote_object_type(value: &DebuggerValue) -> (name: &'static str)
    ensures
        name@ == object_type(*value),
{
    match value {
        DebuggerValue::VoidValue => "undefined",
        DebuggerValue::NullValue(_) => "object",
        DebuggerValue::BooleanValue(_) => "boolean",
        DebuggerValue::NumberValue(_) => "number",
        DebuggerValue::StringValue(_) => "string",
        DebuggerValue::ObjectValue { .. } => "object",
    }
}

/// The plain-text rendering of a value.
pub open spec fn plain_text(value: DebuggerValue) -> Seq<char> {
    match value {
        DebuggerValue::VoidValue => "undefined"@,
        DebuggerValue::NullValue(_) => "null"@,
        DebuggerValue::BooleanValue(truth) => if truth {
            "true"@
        } else {
            "false"@
        },
        DebuggerValue::NumberValue(Number::Finite { text, .. }) => text@,
        DebuggerValue::NumberValue(number) => non_finite_text(number),
        DebuggerValue::StringValue(string) => string@,
        DebuggerValue::ObjectValue { class, .. } => class@,
    }
}

/// Converts a [`DebuggerValue`] to a plain-text rendering, used for
/// `Log.entryAdded` text members.
pub fn debugger_value_to_text(value: &DebuggerValue) -> (text: String)
    ensures
        text@ == plain_text(*value),
{
    match value {
        DebuggerValue::VoidValue => "undefined".to_string(),
        DebuggerValue::NullValue(_) => "null".to_string(),
        DebuggerValue::BooleanValue(truth) => if *truth {
            "true".to_string()
        } else {
            "false".to_string()
        },
        DebuggerValue::NumberValue(number) => match number {
            Number::Finite { text, .. } => text.clone(),
            Number::NaN => "NaN".to_string(),
            Number::Infinity => "Infinity".to_string(),
            Number::NegativeInfinity => "-Infinity".to_string(),
        },
        DebuggerValue::StringValue(string) => string.clone(),
        DebuggerValue::ObjectValue { class, .. } => class.clone(),
    }
}

/// The `RemoteObject` in the reply to an evaluation.
pub open spec fn evaluated_object(value: DebuggerValue, has_exception: bool) -> Json {
    if has_exception {
        Json::Object(
            map!["type"@ => Json::Text("object"@), "subtype"@ => Json::Text("error"@)],
        )
    } else {
        remote_object(value)
    }
}

/// The `exceptionDetails` in the reply to an evaluation.
pub open spec fn exception_json(message: Option<Seq<char>>) -> Json {
    Json::Object(
        map![
            "exceptionId"@ => Json::Int(1),
            "text"@ => Json::Text("Uncaught"@),
            "lineNumber"@ => Json::Int(0),
            "columnNumber"@ => Json::Int(0),
            "exception"@ => Json::Object(
                map![
                    "type"@ => Json::Text("object"@),
                    "subtype"@ => Json::Text("error"@),
                    "className"@ => Json::Text("Error"@),
                    "description"@ => Json::Text(
                        match message {
                            Some(text) => text,
                            None => "Exception"@,
                        },
                    ),
                ],
            ),
        ],
    )
}

/// The text that there may be.
pub open spec fn optional_text(text: Option<&str>) -> Option<Seq<char>> {
    match text {
        Some(t) => Some(t@),
        None => None,
    }
}

/// Converts a `Runtime.evaluate` reply into a `RemoteObject` and an
/// optional `exceptionDetails` structure.
pub fn evaluate_reply_to_remote_object(
    value: &DebuggerValue,
    has_exception: bool,
    exception_message: Option<&str>,
) -> (result: (Value, Option<Value>))
    ensures
        json::json_of(result.0) == evaluated_object(*value, has_exception),
        match result.1 {
            Some(details) => has_exception && json::json_of(details) == exception_json(
                optional_text(exception_message),
            ),
            None => !has_exception,
        },
{
    if has_exception {
        let description = match exception_message {
            Some(message) => message,
            None => "Exception",
        };
        let exception = Members::new().with("type", json::string("object")).with(
            "subtype",
            json::string("error"),
        ).with("className", json::string("Error")).with(
            "description",
            json::string(description),
        ).value();
        let details = Members::new().with("exceptionId", json::integer(1)).with(
            "text",
            json::string("Uncaught"),
        ).with("lineNumber", json::integer(0)).with("columnNumber", json::integer(0)).with(
            "exception",
            exception,
        ).value();
        let object = Members::new().with("type", json::string("object")).with(
            "subtype",
            json::string("error"),
        ).value();
        (object, Some(details))
    } else {
        (debugger_value_to_remote_object(value), None)
    }
}

/// The kinds of console messages.
#[derive(Clone, Copy, Debug, Eq, PartialEq, Structural)]
pub enum ConsoleLogLevel {
    Log,
    Debug,
    Info,
    Warn,
    Error,
    Trace,
    Dir,
}

/// The `Runtime.consoleAPICalled` message type.
pub open spec fn console_type(level: ConsoleLogLevel) -> Seq<char> {
    match level {
        ConsoleLogLevel::Log => "log"@,
        ConsoleLogLevel::Debug => "debug"@,
        ConsoleLogLevel::Info => "info"@,
        ConsoleLogLevel::Warn => "warning"@,
        ConsoleLogLevel::Error => "error"@,
        ConsoleLogLevel::Trace => "trace"@,
        ConsoleLogLevel::Dir => "dir"@,
    }
}

/// The severity used by `Log.entryAdded`.
pub open spec fn console_severity(level: ConsoleLogLevel) -> Seq<char> {
    match level {
        ConsoleLogLevel::Error => "error"@,
        ConsoleLogLevel::Warn => "warning"@,
        _ => "info"@,
    }
}

/// Converts console log levels to the `Runtime.consoleAPICalled` message type.
pub fn console_log_level_to_cdp_type(level: &ConsoleLogLevel) -> (name: &'static str)
    ensures
        name@ == console_type(*level),
{
    match level {
        ConsoleLogLevel::Log => "log",
        ConsoleLogLevel::Debug => "debug",
        ConsoleLogLevel::Info => "info",
        ConsoleLogLevel::Warn => "warning",
        ConsoleLogLevel::Error => "error",
        ConsoleLogLevel::Trace => "trace",
        ConsoleLogLevel::Dir => "dir",
    }
}

/// Converts the same log level to the severity used by `Log.entryAdded`.
pub fn console_log_level_to_cdp_level(level: &ConsoleLogLevel) -> (name: &'static str)
    ensures
        name@ == console_severity(*level),
{
    match level {
        ConsoleLogLevel::Error => "error",
        ConsoleLogLevel::Warn => "warning",
        _ => "info",
    }
}

/// The members that headers give: lower-cased names, repeated headers joined
/// with ", ", headers with other than visible ASCII characters left out.
pub open spec fn header_members(entries: Seq<(Seq<char>, Seq<u8>)>) -> Map<Seq<char>, Json>
    decreases entries.len(),
{
    if entries.len() == 0 {
        Map::empty()
    } else {
        let front = header_members(entries.drop_last());
        let (name, bytes) = entries.last();
        let key = text::lower(name);
        let value = headers::ascii_text(bytes);
        if !headers::visible(bytes) {
            front
        } else {
            match json::member(Json::Object(front), key) {
                Some(Json::Text(existing)) => front.insert(
                    key,
                    Json::Text(existing + ", "@ + value),
                ),
                _ => front.insert(key, Json::Text(value)),
            }
        }
    }
}

/// The headers of a message, if it has any.
pub open spec fn header_json(entries: Option<Seq<(Seq<char>, Seq<u8>)>>) -> Json {
    Json::Object(
        match entries {
            Some(entries) => header_members(entries),
            None => Map::empty(),
        },
    )
}

/// Serializes a list of headers as a JSON object with lower-cased header names.
pub fn header_list_to_json(list: &[(String, HeaderValue)]) -> (value: Value)
    ensures
        json::json_of(value) == header_json(Some(headers::entries(list@))),
{
    let ghost all = headers::entries(list@);
    let mut members = Members::new();
    let mut i: usize = 0;
    assert(members@ =~= header_members(all.take(0)));
    while i < list.len()
        invariant
            i <= list@.len(),
            all == headers::entries(list@),
            members@ == header_members(all.take(i as int)),
        decreases list@.len() - i,
    {
        let ghost front = all.take(i + 1);
        assert(front.drop_last() =~= all.take(i as int));
        assert(front.last() == (list@[i as int].0@, headers::header_bytes(list@[i as int].1)));
        if let Some(value) = headers::header_text(&list[i].1) {
            let name = text::ascii_lowercase(list[i].0.as_str());
            let item = match members.text(name.as_str()) {
                // Repeated headers are joined with ", " like Chromium does.
                Some(existing) => {
                    let mut joined = existing.to_string();
                    joined.push_str(", ");
                    joined.push_str(value);
                    joined
                },
                None => value.to_string(),
            };
            members = members.with(name.as_str(), json::string(item.as_str()));
        }
        i += 1;
    }
    assert(all.take(i as int) =~= all);
    members.value()
}

/// Serializes an HTTP [`HeaderMap`] as a JSON object with lower-cased header
/// names, the way the `Network` domain represents headers.
pub fn headers_to_cdp_json(headers: Option<&HeaderMap<HeaderValue>>) -> (value: Value)
    ensures
        json::json_of(value) == header_json(headers::optional_entries(headers)),
{
    match headers {
        Some(headers) => header_list_to_json(headers::header_list(headers).as_slice()),
        None => Members::new().value(),
    }
}

/// The values of the headers of a name, in order, but for those with other than
/// visible ASCII characters.
pub open spec fn values_of(entries: Seq<(Seq<char>, Seq<u8>)>, key: Seq<char>) -> Seq<Seq<char>>
    decreases entries.len(),
{
    if entries.len() == 0 {
        Seq::empty()
    } else {
        let front = values_of(entries.drop_last(), key);
        let (name, bytes) = entries.last();
        if text::lower(name) == key && headers::visible(bytes) {
            front.push(headers::ascii_text(bytes))
        } else {
            front
        }
    }
}

/// Repeated headers are joined with ", ", in order.
pub proof fn law_repeated_headers_are_joined(
    entries: Seq<(Seq<char>, Seq<u8>)>,
    key: Seq<char>,
)
    ensures
        json::member(header_json(Some(entries)), key) == if values_of(entries, key).len() == 0 {
            None
        } else {
            Some(Json::Text(text::joined(values_of(entries, key), ", "@)))
        },
    decreases entries.len(),
{
    if entries.len() > 0 {
        let front = entries.drop_last();
        let (name, bytes) = entries.last();
        law_repeated_headers_are_joined(front, key);
        law_repeated_headers_are_joined(front, text::lower(name));
        let values = values_of(entries, key);
        if text::lower(name) == key && headers::visible(bytes) {
            assert(values.drop_last() =~= values_of(front, key));
            assert(values.last() == headers::ascii_text(bytes));
        }
    }
}

/// The MIME type that headers give.
pub open spec fn mime_type(entries: Option<Seq<(Seq<char>, Seq<u8>)>>) -> Seq<char> {
    match entries {
        Some(entries) => match headers::first_entry(entries, "content-type"@) {
            Some(bytes) => if headers::visible(bytes) {
                text::trim(text::before(headers::ascii_text(bytes), ';'))
            } else {
                Seq::empty()
            },
            None => Seq::empty(),
        },
        None => Seq::empty(),
    }
}

/// Extracts the MIME type from the value of a `Content-Type` header.
pub fn mime_type_from_content_type(value: &str) -> (result: String)
    ensures
        result@ == text::trim(text::before(value@, ';')),
{
    text::trimmed(text::text_before(value, ';').as_str())
}

/// Extracts the MIME type from a `Content-Type` header, if any.
pub fn mime_type_from_headers(headers: Option<&HeaderMap<HeaderValue>>) -> (result: String)
    ensures
        result@ == mime_type(headers::optional_entries(headers)),
{
    let Some(headers) = headers else {
        return String::new();
    };
    proof {
        reveal_strlit("content-type");
        assert(text::lower("content-type"@) =~= "content-type"@);
    }
    let Some(value) = headers::first_header(headers, "content-type") else {
        return String::new();
    };
    match headers::header_text(value) {
        Some(value) => mime_type_from_content_type(value),
        None => String::new(),
    }
}

/// A frame of a JavaScript stack, with positions that count from one.
pub struct StackFrame {
    pub function_name: String,
    pub filename: String,
    pub line_number: u32,
    pub column_number: u32,
}

/// A position that counts from zero.
pub open spec fn zero_based(position: u32) -> int {
    if position == 0 {
        0
    } else {
        position - 1
    }
}

/// A call frame, whose positions count from zero.
pub open spec fn call_frame_json(frame: StackFrame) -> Json {
    Json::Object(
        map![
            "functionName"@ => Json::Text(frame.function_name@),
            "scriptId"@ => Json::Text("0"@),
            "url"@ => Json::Text(frame.filename@),
            "lineNumber"@ => Json::Int(zero_based(frame.line_number)),
            "columnNumber"@ => Json::Int(zero_based(frame.column_number)),
        ],
    )
}

/// The stack trace that frames give, where there are any.
pub open spec fn stack_trace(frames: Option<Seq<StackFrame>>) -> Option<Json> {
    match frames {
        Some(list) => if list.len() == 0 {
            None
        } else {
            Some(
                Json::Object(
                    map![
                        "callFrames"@ => Json::Array(
                            list.map_values(|frame: StackFrame| call_frame_json(frame)),
                        ),
                    ],
                ),
            )
        },
        None => None,
    }
}

/// The frames that there may be.
pub open spec fn optional_frames(frames: Option<&[StackFrame]>) -> Option<Seq<StackFrame>> {
    match frames {
        Some(list) => Some(list@),
        None => None,
    }
}

/// Serializes a `StackTrace` from stack frame information.
pub fn stack_trace_to_json(frames: Option<&[StackFrame]>) -> (value: Option<Value>)
    ensures
        match value {
            Some(trace) => stack_trace(optional_frames(frames)) == Some(json::json_of(trace)),
            None => stack_trace(optional_frames(frames)) is None,
        },
{
    let Some(frames) = frames else {
        return None;
    };
    if frames.len() == 0 {
        return None;
    }
    let ghost all = frames@.map_values(|frame: StackFrame| call_frame_json(frame));
    let mut call_frames: Vec<Value> = Vec::new();
    let mut i: usize = 0;
    assert(json::jsons(call_frames@) =~= all.take(0));
    while i < frames.len()
        invariant
            i <= frames@.len(),
            all == frames@.map_values(|frame: StackFrame| call_frame_json(frame)),
            json::jsons(call_frames@) == all.take(i as int),
        decreases frames@.len() - i,
    {
        let ghost done = call_frames@;
        let frame = &frames[i];
        // Call frames are zero-based.
        call_frames.push(
            Members::new().with("functionName", json::string(frame.function_name.as_str())).with(
                "scriptId",
                json::string("0"),
            ).with("url", json::string(frame.filename.as_str())).with(
                "lineNumber",
                json::unsigned(frame.line_number.saturating_sub(1) as u64),
            ).with(
                "columnNumber",
                json::unsigned(frame.column_number.saturating_sub(1) as u64),
            ).value(),
        );
        assert(json::jsons(call_frames@) =~= json::jsons(done).push(
            call_frame_json(frames@[i as int]),
        ));
        i += 1;
        assert(all.take(i as int) =~= all.take(i - 1).push(all[i - 1]));
    }
    assert(json::jsons(call_frames@) =~= all);
    Some(Members::new().with("callFrames", json::array(call_frames)).value())
}

/// The status text for well-known status codes.
pub open spec fn status_text(status: u16) -> Seq<char> {
    match status {
        200 => "OK"@,
        204 => "No Content"@,
        301 => "Moved Permanently"@,
        302 => "Found"@,
        304 => "Not Modified"@,
        307 => "Temporary Redirect"@,
        308 => "Permanent Redirect"@,
        400 => "Bad Request"@,
        401 => "Unauthorized"@,
        403 => "Forbidden"@,
        404 => "Not Found"@,
        500 => "Internal Server Error"@,
        502 => "Bad Gateway"@,
        503 => "Service Unavailable"@,
        _ => ""@,
    }
}

/// The HTTP status text for well-known status codes, empty otherwise.
pub fn status_text_for(status: u16) -> (text: &'static str)
    ensures
        text@ == status_text(status),
{
    match status {
        200 => "OK",
        204 => "No Content",
        301 => "Moved Permanently",
        302 => "Found",
        304 => "Not Modified",
        307 => "Temporary Redirect",
        308 => "Permanent Redirect",
        400 => "Bad Request",
        401 => "Unauthorized",
        403 => "Forbidden",
        404 => "Not Found",
        500 => "Internal Server Error",
        502 => "Bad Gateway",
        503 => "Service Unavailable",
        _ => "",
    }
}

} // verus!
