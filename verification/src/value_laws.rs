//! What clients learn of JavaScript values, console messages, stack traces and
//! headers: each can be had back from what is sent.
use vstd::prelude::*;

use crate::headers;
use crate::json;
use crate::json::Json;
use crate::names;
use crate::observe;
use crate::protocol;
use crate::protocol::ConsoleLogLevel;
use crate::protocol::DebuggerValue;
use crate::protocol::Number;
use crate::protocol::ObjectPreview;
use crate::protocol::PropertyDescriptor;
use crate::protocol::StackFrame;
use crate::text;
use crate::text_laws;

verus! {

/// A primitive value can be had back from its remote object: the boolean, the
/// finite number or the string is the member `value`.
pub proof fn law_primitive_can_be_had_back(value: DebuggerValue)
    ensures
        value matches DebuggerValue::BooleanValue(truth) ==> observe::part(
            protocol::remote_object(value),
            "value"@,
        ) == Json::Bool(truth),
        value matches DebuggerValue::StringValue(string) ==> observe::part(
            protocol::remote_object(value),
            "value"@,
        ) == Json::Text(string@) && observe::part(protocol::remote_object(value), "description"@)
            == Json::Text(string@),
        value matches DebuggerValue::NumberValue(Number::Finite { value: number, .. }) ==> observe::part(
            protocol::remote_object(value),
            "value"@,
        ) == json::json_of(number) && !observe::holds(
            protocol::remote_object(value),
            "unserializableValue"@,
        ),
        value is VoidValue || value is ObjectValue ==> !observe::holds(
            protocol::remote_object(value),
            "value"@,
        ),
        value is NullValue ==> observe::holds(protocol::remote_object(value), "value"@) && observe::part(
            protocol::remote_object(value),
            "value"@,
        ) == Json::Null,
{
    names::lemma_object_names();
}

/// The member `type` tells the type of a value, and `subtype` tells null from
/// objects.
pub proof fn law_type_is_told(value: DebuggerValue)
    ensures
        ({
            let kind = observe::part(protocol::remote_object(value), "type"@);
            &&& value is VoidValue <==> kind == Json::Text("undefined"@)
            &&& value is BooleanValue <==> kind == Json::Text("boolean"@)
            &&& value is NumberValue <==> kind == Json::Text("number"@)
            &&& value is StringValue <==> kind == Json::Text("string"@)
            &&& (value is NullValue || value is ObjectValue) <==> kind == Json::Text("object"@)
            &&& value is NullValue <==> observe::part(protocol::remote_object(value), "subtype"@)
                == Json::Text("null"@)
            &&& value is NullValue <==> observe::holds(protocol::remote_object(value), "subtype"@)
        }),
{
    names::lemma_object_names();
    names::lemma_kind_names();
}

/// A remote object has no members but those that its value calls for.
pub proof fn law_remote_objects_have_no_more(value: DebuggerValue, key: Seq<char>)
    requires
        observe::holds(protocol::remote_object(value), key),
    ensures
        match value {
            DebuggerValue::VoidValue => key == "type"@,
            DebuggerValue::NullValue(_) => key == "type"@ || key == "subtype"@ || key == "value"@,
            DebuggerValue::BooleanValue(_) => key == "type"@ || key == "value"@,
            DebuggerValue::NumberValue(number) => key == "type"@ || key == "value"@ || (!(number
                is Finite) && key == "unserializableValue"@),
            DebuggerValue::StringValue(_) => key == "type"@ || key == "value"@ || key
                == "description"@,
            DebuggerValue::ObjectValue { .. } => key == "type"@ || key == "className"@ || key
                == "description"@ || key == "ownPropertiesLength"@ || key == "preview"@,
        },
{
}

/// Two values with the same remote object are the same, as far as they are
/// primitive.
pub proof fn law_remote_objects_tell_primitives_apart(a: DebuggerValue, b: DebuggerValue)
    requires
        protocol::remote_object(a) == protocol::remote_object(b),
    ensures
        match a {
            DebuggerValue::VoidValue => b is VoidValue,
            DebuggerValue::NullValue(_) => b is NullValue,
            DebuggerValue::BooleanValue(truth) => b == DebuggerValue::BooleanValue(truth),
            DebuggerValue::StringValue(string) => b matches DebuggerValue::StringValue(other)
                && other@ == string@,
            DebuggerValue::NumberValue(Number::Finite { value, .. }) => {
                &&& b matches DebuggerValue::NumberValue(Number::Finite { value: other, .. })
                &&& json::json_of(value) == json::json_of(other)
            },
            DebuggerValue::NumberValue(number) => b == DebuggerValue::NumberValue(number),
            DebuggerValue::ObjectValue { class, .. } => {
                &&& b matches DebuggerValue::ObjectValue { class: other, .. }
                &&& class@ == other@
            },
        },
{
    law_primitive_can_be_had_back(a);
    law_primitive_can_be_had_back(b);
    law_type_is_told(a);
    law_type_is_told(b);
    law_infinite_numbers_are_named(a);
    law_infinite_numbers_are_named(b);
    law_objects_are_described(a);
    law_objects_are_described(b);
    names::lemma_object_names();
    names::lemma_number_names();
}

/// A number that JSON cannot represent is named, as a string, and its plain text
/// is the same name.
pub proof fn law_infinite_numbers_are_named(value: DebuggerValue)
    ensures
        value matches DebuggerValue::NumberValue(number) ==> ({
            let object = protocol::remote_object(value);
            let name = observe::part(object, "unserializableValue"@);
            &&& observe::holds(object, "unserializableValue"@) <==> !(number is Finite)
            &&& number is NaN <==> name == Json::Text("NaN"@)
            &&& number is Infinity <==> name == Json::Text("Infinity"@)
            &&& number is NegativeInfinity <==> name == Json::Text("-Infinity"@)
            &&& !(number is Finite) ==> observe::part(object, "value"@) == name && Json::Text(
                protocol::plain_text(value),
            ) == name
        }),
{
    names::lemma_object_names();
    names::lemma_number_names();
}

/// An object is described by its class, by how many properties it has where that
/// is known, and by its preview where there is one.
pub proof fn law_objects_are_described(value: DebuggerValue)
    ensures
        value matches DebuggerValue::ObjectValue { class, preview, own_property_length } ==> ({
            let object = protocol::remote_object(value);
            &&& observe::part(object, "className"@) == Json::Text(class@)
            &&& observe::part(object, "description"@) == Json::Text(class@)
            &&& observe::holds(object, "ownPropertiesLength"@) == own_property_length is Some
            &&& own_property_length matches Some(length) ==> observe::part(object, "ownPropertiesLength"@)
                == Json::Int(length as int)
            &&& observe::holds(object, "preview"@) == preview is Some
            &&& preview matches Some(shown) ==> observe::part(object, "preview"@)
                == protocol::preview_json(shown)
        }),
{
    names::lemma_object_names();
}

/// A preview has an entry for each property that was reported, in order, with its
/// name, its type and its value; of an object the value is the class.
pub proof fn law_preview_shows_each_property(preview: ObjectPreview)
    ensures
        ({
            let shown = protocol::preview_json(preview);
            let list = observe::items(observe::part(shown, "properties"@));
            &&& observe::part(shown, "type"@) == Json::Text(preview.kind@)
            &&& observe::part(shown, "overflow"@) == Json::Bool(false)
            &&& observe::part(shown, "properties"@) is Array
            &&& match preview.own_properties {
                Some(properties) => {
                    &&& list.len() == properties@.len()
                    &&& forall|i: int|
                        0 <= i < list.len() ==> shows_property(
                            #[trigger] list[i],
                            properties@[i],
                        )
                },
                None => list.len() == 0,
            }
        }),
{
    names::lemma_preview_names();
    let shown = protocol::preview_json(preview);
    let list = observe::items(observe::part(shown, "properties"@));
    if let Some(properties) = preview.own_properties {
        assert forall|i: int| 0 <= i < list.len() implies shows_property(
            #[trigger] list[i],
            properties@[i],
        ) by {
            let value = properties@[i].value;
            names::lemma_kind_names();
            assert(list[i] == protocol::property_json(properties@[i]));
            law_type_is_told(value);
        }
    }
}

/// An entry of a preview shows a property.
pub open spec fn shows_property(shown: Json, property: PropertyDescriptor) -> bool {
    &&& observe::part(shown, "name"@) == Json::Text(property.name@)
    &&& observe::part(shown, "type"@) == observe::part(protocol::remote_object(property.value), "type"@)
    &&& observe::part(shown, "value"@) == match property.value {
        DebuggerValue::BooleanValue(truth) => Json::Bool(truth),
        DebuggerValue::StringValue(string) => Json::Text(string@),
        DebuggerValue::ObjectValue { class, .. } => Json::Text(class@),
        DebuggerValue::NumberValue(Number::Finite { value, .. }) => json::json_of(value),
        _ => Json::Null,
    }
}

/// The plain text of a string is the string, that of a finite number its
/// notation, that of an object its class; the other values are told apart.
pub proof fn law_plain_text_of_values(a: DebuggerValue)
    ensures
        ({
            let told = protocol::plain_text(a);
            match a {
                DebuggerValue::StringValue(string) => told == string@,
                DebuggerValue::NumberValue(Number::Finite { text, .. }) => told == text@,
                DebuggerValue::ObjectValue { class, .. } => told == class@,
                DebuggerValue::BooleanValue(truth) => told == if truth {
                    "true"@
                } else {
                    "false"@
                },
                DebuggerValue::VoidValue => told == "undefined"@,
                DebuggerValue::NullValue(_) => told == "null"@,
                _ => true,
            }
        }),
{
}

/// The kinds of console messages are told apart by the type that is reported;
/// errors and warnings, and nothing else, have those severities.
pub proof fn law_console_levels_are_told_apart(a: ConsoleLogLevel, b: ConsoleLogLevel)
    ensures
        protocol::console_type(a) == protocol::console_type(b) ==> a == b,
        protocol::console_type(a) == "log"@ <==> a is Log,
        protocol::console_type(a) == "debug"@ <==> a is Debug,
        protocol::console_type(a) == "info"@ <==> a is Info,
        protocol::console_type(a) == "trace"@ <==> a is Trace,
        protocol::console_type(a) == "dir"@ <==> a is Dir,
        protocol::console_severity(a) == "error"@ <==> a is Error,
        protocol::console_severity(a) == "warning"@ <==> a is Warn,
        protocol::console_severity(a) == "info"@ <==> !(a is Error || a is Warn),
        a is Error || a is Warn ==> protocol::console_type(a) == protocol::console_severity(a),
{
    names::lemma_level_names();
}

/// A stack trace shows every frame, in order, with its function, its script and
/// its position, which counts from zero; without frames there is none.
pub proof fn law_stack_trace_shows_every_frame(frames: Option<Seq<StackFrame>>)
    ensures
        match protocol::stack_trace(frames) {
            Some(trace) => {
                let list = observe::items(observe::part(trace, "callFrames"@));
                &&& frames matches Some(all)
                &&& all.len() > 0
                &&& list.len() == all.len()
                &&& forall|i: int|
                    0 <= i < list.len() ==> shows_frame(#[trigger] list[i], all[i])
            },
            None => frames matches Some(all) ==> all.len() == 0,
        },
{
    names::lemma_call_frame_names();
    if let Some(trace) = protocol::stack_trace(frames) {
        let all = frames->Some_0;
        let list = observe::items(observe::part(trace, "callFrames"@));
        assert forall|i: int| 0 <= i < list.len() implies shows_frame(
            #[trigger] list[i],
            all[i],
        ) by {
            assert(list[i] == protocol::call_frame_json(all[i]));
        }
    }
}

/// A call frame shows a frame of the stack.
pub open spec fn shows_frame(shown: Json, frame: StackFrame) -> bool {
    let line = observe::part(shown, "lineNumber"@);
    let column = observe::part(shown, "columnNumber"@);
    &&& observe::part(shown, "functionName"@) == Json::Text(frame.function_name@)
    &&& observe::part(shown, "url"@) == Json::Text(frame.filename@)
    &&& observe::part(shown, "scriptId"@) == Json::Text("0"@)
    &&& line matches Json::Int(n) && counts_from_zero(n, frame.line_number)
    &&& column matches Json::Int(n) && counts_from_zero(n, frame.column_number)
}

/// The position that is shown is one less than that which was reported, but
/// never negative.
pub open spec fn counts_from_zero(shown: int, reported: u32) -> bool {
    &&& shown >= 0
    &&& reported > 0 ==> shown + 1 == reported
    &&& reported == 0 ==> shown == 0
}

/// A status code has a text where it is one of the well-known ones, and no two
/// codes share a text.
pub proof fn law_status_texts_tell_codes_apart(a: u16, b: u16)
    ensures
        a != b && protocol::status_text(a) == protocol::status_text(b) ==> protocol::status_text(
            a,
        ) == ""@,
        protocol::status_text(a) == "OK"@ <==> a == 200,
        protocol::status_text(a) == "No Content"@ <==> a == 204,
        protocol::status_text(a) == "Moved Permanently"@ <==> a == 301,
        protocol::status_text(a) == "Found"@ <==> a == 302,
        protocol::status_text(a) == "Not Modified"@ <==> a == 304,
        protocol::status_text(a) == "Temporary Redirect"@ <==> a == 307,
        protocol::status_text(a) == "Permanent Redirect"@ <==> a == 308,
        protocol::status_text(a) == "Bad Request"@ <==> a == 400,
        protocol::status_text(a) == "Unauthorized"@ <==> a == 401,
        protocol::status_text(a) == "Forbidden"@ <==> a == 403,
        protocol::status_text(a) == "Not Found"@ <==> a == 404,
        protocol::status_text(a) == "Internal Server Error"@ <==> a == 500,
        protocol::status_text(a) == "Bad Gateway"@ <==> a == 502,
        protocol::status_text(a) == "Service Unavailable"@ <==> a == 503,
        protocol::status_text(a) != ""@ ==> (a == 200 || a == 204 || a == 301 || a == 302 || a
            == 304 || a == 307 || a == 308 || a == 400 || a == 401 || a == 403 || a == 404 || a
            == 500 || a == 502 || a == 503),
{
    names::lemma_status_names();
}

/// The MIME type is the first part of the first `content-type` header, without
/// what follows a semicolon and without white space around it; where that header
/// is missing, or holds other than visible characters, it is empty.
pub proof fn law_mime_type_is_the_first_part(entries: Seq<(Seq<char>, Seq<u8>)>, at: int)
    requires
        0 <= at <= entries.len(),
        forall|i: int| 0 <= i < at ==> (#[trigger] entries[i]).0 != "content-type"@,
        at < entries.len() ==> entries[at].0 == "content-type"@,
    ensures
        protocol::mime_type(None) == Seq::<char>::empty(),
        at == entries.len() || !headers::visible(entries[at].1) ==> protocol::mime_type(
            Some(entries),
        ) == Seq::<char>::empty(),
        at < entries.len() && headers::visible(entries[at].1) ==> is_first_part(
            protocol::mime_type(Some(entries)),
            headers::ascii_text(entries[at].1),
        ),
{
    lemma_first_entry(entries, "content-type"@, at);
    if at < entries.len() {
        let value = headers::ascii_text(entries[at].1);
        let front = text::before(value, ';');
        text::lemma_position(value, ';');
        text_laws::law_trimming(front);
        let mime = protocol::mime_type(Some(entries));
        if headers::visible(entries[at].1) {
            let (start, to) = choose|start: int, to: int| #[trigger]
                text_laws::is_trimmed(mime, front, start, to);
            let cut = text::position(value, ';');
            assert(mime =~= value.subrange(start, start + mime.len()));
            assert forall|i: int| 0 <= i < start implies text::is_space(#[trigger] value[i]) by {
                assert(front[i] == value[i]);
            }
            assert forall|i: int| start + mime.len() <= i < cut implies text::is_space(
                #[trigger] value[i],
            ) by {
                assert(front[i] == value[i]);
            }
            assert(is_part_at(mime, value, start, cut));
        }
    }
}

/// `word` is what stands in `value` in front of the first semicolon, but for the
/// white space around it.
pub open spec fn is_first_part(word: Seq<char>, value: Seq<char>) -> bool {
    exists|start: int, cut: int| #[trigger] is_part_at(word, value, start, cut)
}

/// The first semicolon of `value` is at `cut`, or there is none and `cut` is its
/// length; `word` stands at `start`, with nothing but white space between it and
/// the beginning, and between it and the cut.
pub open spec fn is_part_at(word: Seq<char>, value: Seq<char>, start: int, cut: int) -> bool {
    &&& 0 <= start
    &&& start + word.len() <= cut <= value.len()
    &&& cut < value.len() ==> value[cut] == ';'
    &&& forall|i: int| 0 <= i < cut ==> value[i] != ';'
    &&& word == value.subrange(start, start + word.len())
    &&& forall|i: int| 0 <= i < start ==> text::is_space(#[trigger] value[i])
    &&& forall|i: int| start + word.len() <= i < cut ==> text::is_space(#[trigger] value[i])
    &&& word.len() > 0 ==> !text::is_space(word[0]) && !text::is_space(word.last())
}

proof fn lemma_first_entry(entries: Seq<(Seq<char>, Seq<u8>)>, name: Seq<char>, at: int)
    requires
        0 <= at <= entries.len(),
        forall|i: int| 0 <= i < at ==> (#[trigger] entries[i]).0 != name,
        at < entries.len() ==> entries[at].0 == name,
    ensures
        headers::first_entry(entries, name) == if at < entries.len() {
            Some(entries[at].1)
        } else {
            None
        },
    decreases entries.len(),
{
    if at > 0 {
        let rest = entries.skip(1);
        assert(entries[0].0 != name);
        assert forall|i: int| 0 <= i < at - 1 implies (#[trigger] rest[i]).0 != name by {
            assert(rest[i] == entries[i + 1]);
        }
        lemma_first_entry(rest, name, at - 1);
    }
}

} // verus!
