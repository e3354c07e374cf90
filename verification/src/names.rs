//! The names of JSON members, and that those of one object are told apart.
use vstd::prelude::*;

verus! {

pub(crate) proof fn lemma_node_names()
    ensures
        "nodeId"@ != "backendNodeId"@,
        "nodeId"@ != "nodeType"@,
        "nodeId"@ != "nodeName"@,
        "nodeId"@ != "nodeValue"@,
        "nodeId"@ != "childNodeCount"@,
        "nodeId"@ != "attributes"@,
        "nodeId"@ != "isDisplayed"@,
        "nodeId"@ != "children"@,
        "backendNodeId"@ != "nodeType"@,
        "backendNodeId"@ != "nodeName"@,
        "backendNodeId"@ != "nodeValue"@,
        "backendNodeId"@ != "childNodeCount"@,
        "backendNodeId"@ != "attributes"@,
        "backendNodeId"@ != "isDisplayed"@,
        "backendNodeId"@ != "children"@,
        "nodeType"@ != "nodeName"@,
        "nodeType"@ != "nodeValue"@,
        "nodeType"@ != "childNodeCount"@,
        "nodeType"@ != "attributes"@,
        "nodeType"@ != "isDisplayed"@,
        "nodeType"@ != "children"@,
        "nodeName"@ != "nodeValue"@,
        "nodeName"@ != "childNodeCount"@,
        "nodeName"@ != "attributes"@,
        "nodeName"@ != "isDisplayed"@,
        "nodeName"@ != "children"@,
        "nodeValue"@ != "childNodeCount"@,
        "nodeValue"@ != "attributes"@,
        "nodeValue"@ != "isDisplayed"@,
        "nodeValue"@ != "children"@,
        "childNodeCount"@ != "attributes"@,
        "childNodeCount"@ != "isDisplayed"@,
        "childNodeCount"@ != "children"@,
        "attributes"@ != "isDisplayed"@,
        "attributes"@ != "children"@,
        "isDisplayed"@ != "children"@,
{
    reveal_strlit("nodeId");
    reveal_strlit("backendNodeId");
    reveal_strlit("nodeType");
    reveal_strlit("nodeName");
    reveal_strlit("nodeValue");
    reveal_strlit("childNodeCount");
    reveal_strlit("attributes");
    reveal_strlit("isDisplayed");
    reveal_strlit("children");
    assert("nodeId"@.len() == 6);
    assert("backendNodeId"@.len() == 13);
    assert("nodeType"@.len() == 8);
    assert("nodeName"@.len() == 8);
    assert("nodeValue"@.len() == 9);
    assert("childNodeCount"@.len() == 14);
    assert("attributes"@.len() == 10);
    assert("isDisplayed"@.len() == 11);
    assert("children"@.len() == 8);
    assert("nodeType"@[4] != "nodeName"@[4]);
    assert("nodeType"@[0] != "children"@[0]);
    assert("nodeName"@[0] != "children"@[0]);
}

pub(crate) proof fn lemma_object_names()
    ensures
        "type"@ != "subtype"@,
        "type"@ != "value"@,
        "type"@ != "description"@,
        "type"@ != "unserializableValue"@,
        "type"@ != "className"@,
        "type"@ != "ownPropertiesLength"@,
        "type"@ != "preview"@,
        "subtype"@ != "value"@,
        "subtype"@ != "description"@,
        "subtype"@ != "unserializableValue"@,
        "subtype"@ != "className"@,
        "subtype"@ != "ownPropertiesLength"@,
        "subtype"@ != "preview"@,
        "value"@ != "description"@,
        "value"@ != "unserializableValue"@,
        "value"@ != "className"@,
        "value"@ != "ownPropertiesLength"@,
        "value"@ != "preview"@,
        "description"@ != "unserializableValue"@,
        "description"@ != "className"@,
        "description"@ != "ownPropertiesLength"@,
        "description"@ != "preview"@,
        "unserializableValue"@ != "className"@,
        "unserializableValue"@ != "ownPropertiesLength"@,
        "unserializableValue"@ != "preview"@,
        "className"@ != "ownPropertiesLength"@,
        "className"@ != "preview"@,
        "ownPropertiesLength"@ != "preview"@,
{
    reveal_strlit("type");
    reveal_strlit("subtype");
    reveal_strlit("value");
    reveal_strlit("description");
    reveal_strlit("unserializableValue");
    reveal_strlit("className");
    reveal_strlit("ownPropertiesLength");
    reveal_strlit("preview");
    assert("type"@.len() == 4);
    assert("subtype"@.len() == 7);
    assert("value"@.len() == 5);
    assert("description"@.len() == 11);
    assert("unserializableValue"@.len() == 19);
    assert("className"@.len() == 9);
    assert("ownPropertiesLength"@.len() == 19);
    assert("preview"@.len() == 7);
    assert("subtype"@[0] != "preview"@[0]);
    assert("unserializableValue"@[0] != "ownPropertiesLength"@[0]);
}

pub(crate) proof fn lemma_preview_names()
    ensures
        "type"@ != "overflow"@,
        "type"@ != "properties"@,
        "type"@ != "name"@,
        "type"@ != "value"@,
        "overflow"@ != "properties"@,
        "overflow"@ != "name"@,
        "overflow"@ != "value"@,
        "properties"@ != "name"@,
        "properties"@ != "value"@,
        "name"@ != "value"@,
{
    reveal_strlit("type");
    reveal_strlit("overflow");
    reveal_strlit("properties");
    reveal_strlit("name");
    reveal_strlit("value");
    assert("type"@.len() == 4);
    assert("overflow"@.len() == 8);
    assert("properties"@.len() == 10);
    assert("name"@.len() == 4);
    assert("value"@.len() == 5);
    assert("type"@[0] != "name"@[0]);
}

pub(crate) proof fn lemma_exception_names()
    ensures
        "exceptionId"@ != "text"@,
        "exceptionId"@ != "lineNumber"@,
        "exceptionId"@ != "columnNumber"@,
        "exceptionId"@ != "exception"@,
        "exceptionId"@ != "type"@,
        "exceptionId"@ != "subtype"@,
        "exceptionId"@ != "className"@,
        "exceptionId"@ != "description"@,
        "text"@ != "lineNumber"@,
        "text"@ != "columnNumber"@,
        "text"@ != "exception"@,
        "text"@ != "type"@,
        "text"@ != "subtype"@,
        "text"@ != "className"@,
        "text"@ != "description"@,
        "lineNumber"@ != "columnNumber"@,
        "lineNumber"@ != "exception"@,
        "lineNumber"@ != "type"@,
        "lineNumber"@ != "subtype"@,
        "lineNumber"@ != "className"@,
        "lineNumber"@ != "description"@,
        "columnNumber"@ != "exception"@,
        "columnNumber"@ != "type"@,
        "columnNumber"@ != "subtype"@,
        "columnNumber"@ != "className"@,
        "columnNumber"@ != "description"@,
        "exception"@ != "type"@,
        "exception"@ != "subtype"@,
        "exception"@ != "className"@,
        "exception"@ != "description"@,
        "type"@ != "subtype"@,
        "type"@ != "className"@,
        "type"@ != "description"@,
        "subtype"@ != "className"@,
        "subtype"@ != "description"@,
        "className"@ != "description"@,
{
    reveal_strlit("exceptionId");
    reveal_strlit("text");
    reveal_strlit("lineNumber");
    reveal_strlit("columnNumber");
    reveal_strlit("exception");
    reveal_strlit("type");
    reveal_strlit("subtype");
    reveal_strlit("className");
    reveal_strlit("description");
    assert("exceptionId"@.len() == 11);
    assert("text"@.len() == 4);
    assert("lineNumber"@.len() == 10);
    assert("columnNumber"@.len() == 12);
    assert("exception"@.len() == 9);
    assert("type"@.len() == 4);
    assert("subtype"@.len() == 7);
    assert("className"@.len() == 9);
    assert("description"@.len() == 11);
    assert("exceptionId"@[0] != "description"@[0]);
    assert("text"@[1] != "type"@[1]);
    assert("exception"@[0] != "className"@[0]);
}

pub(crate) proof fn lemma_reply_names()
    ensures
        "id"@ != "result"@,
        "id"@ != "error"@,
        "id"@ != "sessionId"@,
        "id"@ != "exceptionDetails"@,
        "id"@ != "method"@,
        "id"@ != "params"@,
        "result"@ != "error"@,
        "result"@ != "sessionId"@,
        "result"@ != "exceptionDetails"@,
        "result"@ != "method"@,
        "result"@ != "params"@,
        "error"@ != "sessionId"@,
        "error"@ != "exceptionDetails"@,
        "error"@ != "method"@,
        "error"@ != "params"@,
        "sessionId"@ != "exceptionDetails"@,
        "sessionId"@ != "method"@,
        "sessionId"@ != "params"@,
        "exceptionDetails"@ != "method"@,
        "exceptionDetails"@ != "params"@,
        "method"@ != "params"@,
{
    reveal_strlit("id");
    reveal_strlit("result");
    reveal_strlit("error");
    reveal_strlit("sessionId");
    reveal_strlit("exceptionDetails");
    reveal_strlit("method");
    reveal_strlit("params");
    assert("id"@.len() == 2);
    assert("result"@.len() == 6);
    assert("error"@.len() == 5);
    assert("sessionId"@.len() == 9);
    assert("exceptionDetails"@.len() == 16);
    assert("method"@.len() == 6);
    assert("params"@.len() == 6);
    assert("result"@[0] != "method"@[0]);
    assert("result"@[0] != "params"@[0]);
    assert("method"@[0] != "params"@[0]);
}

pub(crate) proof fn lemma_error_names()
    ensures
        "code"@ != "message"@,
{
    reveal_strlit("code");
    reveal_strlit("message");
    assert("code"@.len() == 4);
    assert("message"@.len() == 7);
}

pub(crate) proof fn lemma_box_names()
    ensures
        "content"@ != "padding"@,
        "content"@ != "border"@,
        "content"@ != "margin"@,
        "content"@ != "width"@,
        "content"@ != "height"@,
        "padding"@ != "border"@,
        "padding"@ != "margin"@,
        "padding"@ != "width"@,
        "padding"@ != "height"@,
        "border"@ != "margin"@,
        "border"@ != "width"@,
        "border"@ != "height"@,
        "margin"@ != "width"@,
        "margin"@ != "height"@,
        "width"@ != "height"@,
{
    reveal_strlit("content");
    reveal_strlit("padding");
    reveal_strlit("border");
    reveal_strlit("margin");
    reveal_strlit("width");
    reveal_strlit("height");
    assert("content"@.len() == 7);
    assert("padding"@.len() == 7);
    assert("border"@.len() == 6);
    assert("margin"@.len() == 6);
    assert("width"@.len() == 5);
    assert("height"@.len() == 6);
    assert("content"@[0] != "padding"@[0]);
    assert("border"@[0] != "margin"@[0]);
    assert("border"@[0] != "height"@[0]);
    assert("margin"@[0] != "height"@[0]);
}

pub(crate) proof fn lemma_request_names()
    ensures
        "requestId"@ != "loaderId"@,
        "requestId"@ != "documentURL"@,
        "requestId"@ != "request"@,
        "requestId"@ != "timestamp"@,
        "requestId"@ != "wallTime"@,
        "requestId"@ != "initiator"@,
        "requestId"@ != "redirectHasExtraInfoLoaded"@,
        "requestId"@ != "url"@,
        "requestId"@ != "method"@,
        "requestId"@ != "headers"@,
        "requestId"@ != "type"@,
        "requestId"@ != "errorText"@,
        "requestId"@ != "canceled"@,
        "requestId"@ != "encodedDataLength"@,
        "requestId"@ != "frameId"@,
        "requestId"@ != "response"@,
        "loaderId"@ != "documentURL"@,
        "loaderId"@ != "request"@,
        "loaderId"@ != "timestamp"@,
        "loaderId"@ != "wallTime"@,
        "loaderId"@ != "initiator"@,
        "loaderId"@ != "redirectHasExtraInfoLoaded"@,
        "loaderId"@ != "url"@,
        "loaderId"@ != "method"@,
        "loaderId"@ != "headers"@,
        "loaderId"@ != "type"@,
        "loaderId"@ != "errorText"@,
        "loaderId"@ != "canceled"@,
        "loaderId"@ != "encodedDataLength"@,
        "loaderId"@ != "frameId"@,
        "loaderId"@ != "response"@,
        "documentURL"@ != "request"@,
        "documentURL"@ != "timestamp"@,
        "documentURL"@ != "wallTime"@,
        "documentURL"@ != "initiator"@,
        "documentURL"@ != "redirectHasExtraInfoLoaded"@,
        "documentURL"@ != "url"@,
        "documentURL"@ != "method"@,
        "documentURL"@ != "headers"@,
        "documentURL"@ != "type"@,
        "documentURL"@ != "errorText"@,
        "documentURL"@ != "canceled"@,
        "documentURL"@ != "encodedDataLength"@,
        "documentURL"@ != "frameId"@,
        "documentURL"@ != "response"@,
        "request"@ != "timestamp"@,
        "request"@ != "wallTime"@,
        "request"@ != "initiator"@,
        "request"@ != "redirectHasExtraInfoLoaded"@,
        "request"@ != "url"@,
        "request"@ != "method"@,
        "request"@ != "headers"@,
        "request"@ != "type"@,
        "request"@ != "errorText"@,
        "request"@ != "canceled"@,
        "request"@ != "encodedDataLength"@,
        "request"@ != "frameId"@,
        "request"@ != "response"@,
        "timestamp"@ != "wallTime"@,
        "timestamp"@ != "initiator"@,
        "timestamp"@ != "redirectHasExtraInfoLoaded"@,
        "timestamp"@ != "url"@,
        "timestamp"@ != "method"@,
        "timestamp"@ != "headers"@,
        "timestamp"@ != "type"@,
        "timestamp"@ != "errorText"@,
        "timestamp"@ != "canceled"@,
        "timestamp"@ != "encodedDataLength"@,
        "timestamp"@ != "frameId"@,
        "timestamp"@ != "response"@,
        "wallTime"@ != "initiator"@,
        "wallTime"@ != "redirectHasExtraInfoLoaded"@,
        "wallTime"@ != "url"@,
        "wallTime"@ != "method"@,
        "wallTime"@ != "headers"@,
        "wallTime"@ != "type"@,
        "wallTime"@ != "errorText"@,
        "wallTime"@ != "canceled"@,
        "wallTime"@ != "encodedDataLength"@,
        "wallTime"@ != "frameId"@,
        "wallTime"@ != "response"@,
        "initiator"@ != "redirectHasExtraInfoLoaded"@,
        "initiator"@ != "url"@,
        "initiator"@ != "method"@,
        "initiator"@ != "headers"@,
        "initiator"@ != "type"@,
        "initiator"@ != "errorText"@,
        "initiator"@ != "canceled"@,
        "initiator"@ != "encodedDataLength"@,
        "initiator"@ != "frameId"@,
        "initiator"@ != "response"@,
        "redirectHasExtraInfoLoaded"@ != "url"@,
        "redirectHasExtraInfoLoaded"@ != "method"@,
        "redirectHasExtraInfoLoaded"@ != "headers"@,
        "redirectHasExtraInfoLoaded"@ != "type"@,
        "redirectHasExtraInfoLoaded"@ != "errorText"@,
        "redirectHasExtraInfoLoaded"@ != "canceled"@,
        "redirectHasExtraInfoLoaded"@ != "encodedDataLength"@,
        "redirectHasExtraInfoLoaded"@ != "frameId"@,
        "redirectHasExtraInfoLoaded"@ != "response"@,
        "url"@ != "method"@,
        "url"@ != "headers"@,
        "url"@ != "type"@,
        "url"@ != "errorText"@,
        "url"@ != "canceled"@,
        "url"@ != "encodedDataLength"@,
        "url"@ != "frameId"@,
        "url"@ != "response"@,
        "method"@ != "headers"@,
        "method"@ != "type"@,
        "method"@ != "errorText"@,
        "method"@ != "canceled"@,
        "method"@ != "encodedDataLength"@,
        "method"@ != "frameId"@,
        "method"@ != "response"@,
        "headers"@ != "type"@,
        "headers"@ != "errorText"@,
        "headers"@ != "canceled"@,
        "headers"@ != "encodedDataLength"@,
        "headers"@ != "frameId"@,
        "headers"@ != "response"@,
        "type"@ != "errorText"@,
        "type"@ != "canceled"@,
        "type"@ != "encodedDataLength"@,
        "type"@ != "frameId"@,
        "type"@ != "response"@,
        "errorText"@ != "canceled"@,
        "errorText"@ != "encodedDataLength"@,
        "errorText"@ != "frameId"@,
        "errorText"@ != "response"@,
        "canceled"@ != "encodedDataLength"@,
        "canceled"@ != "frameId"@,
        "canceled"@ != "response"@,
        "encodedDataLength"@ != "frameId"@,
        "encodedDataLength"@ != "response"@,
        "frameId"@ != "response"@,
{
    reveal_strlit("requestId");
    reveal_strlit("loaderId");
    reveal_strlit("documentURL");
    reveal_strlit("request");
    reveal_strlit("timestamp");
    reveal_strlit("wallTime");
    reveal_strlit("initiator");
    reveal_strlit("redirectHasExtraInfoLoaded");
    reveal_strlit("url");
    reveal_strlit("method");
    reveal_strlit("headers");
    reveal_strlit("type");
    reveal_strlit("errorText");
    reveal_strlit("canceled");
    reveal_strlit("encodedDataLength");
    reveal_strlit("frameId");
    reveal_strlit("response");
    assert("requestId"@.len() == 9);
    assert("loaderId"@.len() == 8);
    assert("documentURL"@.len() == 11);
    assert("request"@.len() == 7);
    assert("timestamp"@.len() == 9);
    assert("wallTime"@.len() == 8);
    assert("initiator"@.len() == 9);
    assert("redirectHasExtraInfoLoaded"@.len() == 26);
    assert("url"@.len() == 3);
    assert("method"@.len() == 6);
    assert("headers"@.len() == 7);
    assert("type"@.len() == 4);
    assert("errorText"@.len() == 9);
    assert("canceled"@.len() == 8);
    assert("encodedDataLength"@.len() == 17);
    assert("frameId"@.len() == 7);
    assert("response"@.len() == 8);
    assert("requestId"@[0] != "timestamp"@[0]);
    assert("requestId"@[0] != "initiator"@[0]);
    assert("requestId"@[0] != "errorText"@[0]);
    assert("loaderId"@[0] != "wallTime"@[0]);
    assert("loaderId"@[0] != "canceled"@[0]);
    assert("loaderId"@[0] != "response"@[0]);
    assert("request"@[0] != "headers"@[0]);
    assert("request"@[0] != "frameId"@[0]);
    assert("timestamp"@[0] != "initiator"@[0]);
    assert("timestamp"@[0] != "errorText"@[0]);
    assert("wallTime"@[0] != "canceled"@[0]);
    assert("wallTime"@[0] != "response"@[0]);
    assert("initiator"@[0] != "errorText"@[0]);
    assert("headers"@[0] != "frameId"@[0]);
    assert("canceled"@[0] != "response"@[0]);
}

pub(crate) proof fn lemma_response_names()
    ensures
        "url"@ != "status"@,
        "url"@ != "statusText"@,
        "url"@ != "headers"@,
        "url"@ != "mimeType"@,
        "url"@ != "connectionReused"@,
        "url"@ != "connectionId"@,
        "url"@ != "encodedDataLength"@,
        "url"@ != "fromDiskCache"@,
        "url"@ != "fromServiceWorker"@,
        "status"@ != "statusText"@,
        "status"@ != "headers"@,
        "status"@ != "mimeType"@,
        "status"@ != "connectionReused"@,
        "status"@ != "connectionId"@,
        "status"@ != "encodedDataLength"@,
        "status"@ != "fromDiskCache"@,
        "status"@ != "fromServiceWorker"@,
        "statusText"@ != "headers"@,
        "statusText"@ != "mimeType"@,
        "statusText"@ != "connectionReused"@,
        "statusText"@ != "connectionId"@,
        "statusText"@ != "encodedDataLength"@,
        "statusText"@ != "fromDiskCache"@,
        "statusText"@ != "fromServiceWorker"@,
        "headers"@ != "mimeType"@,
        "headers"@ != "connectionReused"@,
        "headers"@ != "connectionId"@,
        "headers"@ != "encodedDataLength"@,
        "headers"@ != "fromDiskCache"@,
        "headers"@ != "fromServiceWorker"@,
        "mimeType"@ != "connectionReused"@,
        "mimeType"@ != "connectionId"@,
        "mimeType"@ != "encodedDataLength"@,
        "mimeType"@ != "fromDiskCache"@,
        "mimeType"@ != "fromServiceWorker"@,
        "connectionReused"@ != "connectionId"@,
        "connectionReused"@ != "encodedDataLength"@,
        "connectionReused"@ != "fromDiskCache"@,
        "connectionReused"@ != "fromServiceWorker"@,
        "connectionId"@ != "encodedDataLength"@,
        "connectionId"@ != "fromDiskCache"@,
        "connectionId"@ != "fromServiceWorker"@,
        "encodedDataLength"@ != "fromDiskCache"@,
        "encodedDataLength"@ != "fromServiceWorker"@,
        "fromDiskCache"@ != "fromServiceWorker"@,
{
    reveal_strlit("url");
    reveal_strlit("status");
    reveal_strlit("statusText");
    reveal_strlit("headers");
    reveal_strlit("mimeType");
    reveal_strlit("connectionReused");
    reveal_strlit("connectionId");
    reveal_strlit("encodedDataLength");
    reveal_strlit("fromDiskCache");
    reveal_strlit("fromServiceWorker");
    assert("url"@.len() == 3);
    assert("status"@.len() == 6);
    assert("statusText"@.len() == 10);
    assert("headers"@.len() == 7);
    assert("mimeType"@.len() == 8);
    assert("connectionReused"@.len() == 16);
    assert("connectionId"@.len() == 12);
    assert("encodedDataLength"@.len() == 17);
    assert("fromDiskCache"@.len() == 13);
    assert("fromServiceWorker"@.len() == 17);
    assert("encodedDataLength"@[0] != "fromServiceWorker"@[0]);
}

pub(crate) proof fn lemma_frame_names()
    ensures
        "id"@ != "loaderId"@,
        "id"@ != "url"@,
        "id"@ != "domainAndRegistry"@,
        "id"@ != "securityOrigin"@,
        "id"@ != "mimeType"@,
        "id"@ != "type"@,
        "id"@ != "frame"@,
        "id"@ != "frameId"@,
        "id"@ != "childFrames"@,
        "id"@ != "resources"@,
        "id"@ != "frameTree"@,
        "loaderId"@ != "url"@,
        "loaderId"@ != "domainAndRegistry"@,
        "loaderId"@ != "securityOrigin"@,
        "loaderId"@ != "mimeType"@,
        "loaderId"@ != "type"@,
        "loaderId"@ != "frame"@,
        "loaderId"@ != "frameId"@,
        "loaderId"@ != "childFrames"@,
        "loaderId"@ != "resources"@,
        "loaderId"@ != "frameTree"@,
        "url"@ != "domainAndRegistry"@,
        "url"@ != "securityOrigin"@,
        "url"@ != "mimeType"@,
        "url"@ != "type"@,
        "url"@ != "frame"@,
        "url"@ != "frameId"@,
        "url"@ != "childFrames"@,
        "url"@ != "resources"@,
        "url"@ != "frameTree"@,
        "domainAndRegistry"@ != "securityOrigin"@,
        "domainAndRegistry"@ != "mimeType"@,
        "domainAndRegistry"@ != "type"@,
        "domainAndRegistry"@ != "frame"@,
        "domainAndRegistry"@ != "frameId"@,
        "domainAndRegistry"@ != "childFrames"@,
        "domainAndRegistry"@ != "resources"@,
        "domainAndRegistry"@ != "frameTree"@,
        "securityOrigin"@ != "mimeType"@,
        "securityOrigin"@ != "type"@,
        "securityOrigin"@ != "frame"@,
        "securityOrigin"@ != "frameId"@,
        "securityOrigin"@ != "childFrames"@,
        "securityOrigin"@ != "resources"@,
        "securityOrigin"@ != "frameTree"@,
        "mimeType"@ != "type"@,
        "mimeType"@ != "frame"@,
        "mimeType"@ != "frameId"@,
        "mimeType"@ != "childFrames"@,
        "mimeType"@ != "resources"@,
        "mimeType"@ != "frameTree"@,
        "type"@ != "frame"@,
        "type"@ != "frameId"@,
        "type"@ != "childFrames"@,
        "type"@ != "resources"@,
        "type"@ != "frameTree"@,
        "frame"@ != "frameId"@,
        "frame"@ != "childFrames"@,
        "frame"@ != "resources"@,
        "frame"@ != "frameTree"@,
        "frameId"@ != "childFrames"@,
        "frameId"@ != "resources"@,
        "frameId"@ != "frameTree"@,
        "childFrames"@ != "resources"@,
        "childFrames"@ != "frameTree"@,
        "resources"@ != "frameTree"@,
{
    reveal_strlit("id");
    reveal_strlit("loaderId");
    reveal_strlit("url");
    reveal_strlit("domainAndRegistry");
    reveal_strlit("securityOrigin");
    reveal_strlit("mimeType");
    reveal_strlit("type");
    reveal_strlit("frame");
    reveal_strlit("frameId");
    reveal_strlit("childFrames");
    reveal_strlit("resources");
    reveal_strlit("frameTree");
    assert("id"@.len() == 2);
    assert("loaderId"@.len() == 8);
    assert("url"@.len() == 3);
    assert("domainAndRegistry"@.len() == 17);
    assert("securityOrigin"@.len() == 14);
    assert("mimeType"@.len() == 8);
    assert("type"@.len() == 4);
    assert("frame"@.len() == 5);
    assert("frameId"@.len() == 7);
    assert("childFrames"@.len() == 11);
    assert("resources"@.len() == 9);
    assert("frameTree"@.len() == 9);
    assert("loaderId"@[0] != "mimeType"@[0]);
    assert("resources"@[0] != "frameTree"@[0]);
}

pub(crate) proof fn lemma_target_names()
    ensures
        "targetId"@ != "type"@,
        "targetId"@ != "title"@,
        "targetId"@ != "url"@,
        "targetId"@ != "attached"@,
        "targetId"@ != "canAccessOpener"@,
        "targetId"@ != "browserContextId"@,
        "targetId"@ != "targetInfo"@,
        "targetId"@ != "sessionId"@,
        "targetId"@ != "waitingForDebugger"@,
        "type"@ != "title"@,
        "type"@ != "url"@,
        "type"@ != "attached"@,
        "type"@ != "canAccessOpener"@,
        "type"@ != "browserContextId"@,
        "type"@ != "targetInfo"@,
        "type"@ != "sessionId"@,
        "type"@ != "waitingForDebugger"@,
        "title"@ != "url"@,
        "title"@ != "attached"@,
        "title"@ != "canAccessOpener"@,
        "title"@ != "browserContextId"@,
        "title"@ != "targetInfo"@,
        "title"@ != "sessionId"@,
        "title"@ != "waitingForDebugger"@,
        "url"@ != "attached"@,
        "url"@ != "canAccessOpener"@,
        "url"@ != "browserContextId"@,
        "url"@ != "targetInfo"@,
        "url"@ != "sessionId"@,
        "url"@ != "waitingForDebugger"@,
        "attached"@ != "canAccessOpener"@,
        "attached"@ != "browserContextId"@,
        "attached"@ != "targetInfo"@,
        "attached"@ != "sessionId"@,
        "attached"@ != "waitingForDebugger"@,
        "canAccessOpener"@ != "browserContextId"@,
        "canAccessOpener"@ != "targetInfo"@,
        "canAccessOpener"@ != "sessionId"@,
        "canAccessOpener"@ != "waitingForDebugger"@,
        "browserContextId"@ != "targetInfo"@,
        "browserContextId"@ != "sessionId"@,
        "browserContextId"@ != "waitingForDebugger"@,
        "targetInfo"@ != "sessionId"@,
        "targetInfo"@ != "waitingForDebugger"@,
        "sessionId"@ != "waitingForDebugger"@,
{
    reveal_strlit("targetId");
    reveal_strlit("type");
    reveal_strlit("title");
    reveal_strlit("url");
    reveal_strlit("attached");
    reveal_strlit("canAccessOpener");
    reveal_strlit("browserContextId");
    reveal_strlit("targetInfo");
    reveal_strlit("sessionId");
    reveal_strlit("waitingForDebugger");
    assert("targetId"@.len() == 8);
    assert("type"@.len() == 4);
    assert("title"@.len() == 5);
    assert("url"@.len() == 3);
    assert("attached"@.len() == 8);
    assert("canAccessOpener"@.len() == 15);
    assert("browserContextId"@.len() == 16);
    assert("targetInfo"@.len() == 10);
    assert("sessionId"@.len() == 9);
    assert("waitingForDebugger"@.len() == 18);
    assert("targetId"@[0] != "attached"@[0]);
}

pub(crate) proof fn lemma_context_names()
    ensures
        "id"@ != "origin"@,
        "id"@ != "name"@,
        "id"@ != "uniqueId"@,
        "id"@ != "isDefault"@,
        "id"@ != "auxData"@,
        "id"@ != "type"@,
        "id"@ != "frameId"@,
        "id"@ != "context"@,
        "id"@ != "executionContextId"@,
        "origin"@ != "name"@,
        "origin"@ != "uniqueId"@,
        "origin"@ != "isDefault"@,
        "origin"@ != "auxData"@,
        "origin"@ != "type"@,
        "origin"@ != "frameId"@,
        "origin"@ != "context"@,
        "origin"@ != "executionContextId"@,
        "name"@ != "uniqueId"@,
        "name"@ != "isDefault"@,
        "name"@ != "auxData"@,
        "name"@ != "type"@,
        "name"@ != "frameId"@,
        "name"@ != "context"@,
        "name"@ != "executionContextId"@,
        "uniqueId"@ != "isDefault"@,
        "uniqueId"@ != "auxData"@,
        "uniqueId"@ != "type"@,
        "uniqueId"@ != "frameId"@,
        "uniqueId"@ != "context"@,
        "uniqueId"@ != "executionContextId"@,
        "isDefault"@ != "auxData"@,
        "isDefault"@ != "type"@,
        "isDefault"@ != "frameId"@,
        "isDefault"@ != "context"@,
        "isDefault"@ != "executionContextId"@,
        "auxData"@ != "type"@,
        "auxData"@ != "frameId"@,
        "auxData"@ != "context"@,
        "auxData"@ != "executionContextId"@,
        "type"@ != "frameId"@,
        "type"@ != "context"@,
        "type"@ != "executionContextId"@,
        "frameId"@ != "context"@,
        "frameId"@ != "executionContextId"@,
        "context"@ != "executionContextId"@,
{
    reveal_strlit("id");
    reveal_strlit("origin");
    reveal_strlit("name");
    reveal_strlit("uniqueId");
    reveal_strlit("isDefault");
    reveal_strlit("auxData");
    reveal_strlit("type");
    reveal_strlit("frameId");
    reveal_strlit("context");
    reveal_strlit("executionContextId");
    assert("id"@.len() == 2);
    assert("origin"@.len() == 6);
    assert("name"@.len() == 4);
    assert("uniqueId"@.len() == 8);
    assert("isDefault"@.len() == 9);
    assert("auxData"@.len() == 7);
    assert("type"@.len() == 4);
    assert("frameId"@.len() == 7);
    assert("context"@.len() == 7);
    assert("executionContextId"@.len() == 18);
    assert("name"@[0] != "type"@[0]);
    assert("auxData"@[0] != "frameId"@[0]);
    assert("auxData"@[0] != "context"@[0]);
    assert("frameId"@[0] != "context"@[0]);
}

pub(crate) proof fn lemma_console_names()
    ensures
        "type"@ != "args"@,
        "type"@ != "executionContextId"@,
        "type"@ != "timestamp"@,
        "type"@ != "stackTrace"@,
        "args"@ != "executionContextId"@,
        "args"@ != "timestamp"@,
        "args"@ != "stackTrace"@,
        "executionContextId"@ != "timestamp"@,
        "executionContextId"@ != "stackTrace"@,
        "timestamp"@ != "stackTrace"@,
{
    reveal_strlit("type");
    reveal_strlit("args");
    reveal_strlit("executionContextId");
    reveal_strlit("timestamp");
    reveal_strlit("stackTrace");
    assert("type"@.len() == 4);
    assert("args"@.len() == 4);
    assert("executionContextId"@.len() == 18);
    assert("timestamp"@.len() == 9);
    assert("stackTrace"@.len() == 10);
    assert("type"@[0] != "args"@[0]);
}

pub(crate) proof fn lemma_entry_names()
    ensures
        "source"@ != "level"@,
        "source"@ != "text"@,
        "source"@ != "timestamp"@,
        "source"@ != "url"@,
        "source"@ != "lineNumber"@,
        "source"@ != "stackTrace"@,
        "level"@ != "text"@,
        "level"@ != "timestamp"@,
        "level"@ != "url"@,
        "level"@ != "lineNumber"@,
        "level"@ != "stackTrace"@,
        "text"@ != "timestamp"@,
        "text"@ != "url"@,
        "text"@ != "lineNumber"@,
        "text"@ != "stackTrace"@,
        "timestamp"@ != "url"@,
        "timestamp"@ != "lineNumber"@,
        "timestamp"@ != "stackTrace"@,
        "url"@ != "lineNumber"@,
        "url"@ != "stackTrace"@,
        "lineNumber"@ != "stackTrace"@,
{
    reveal_strlit("source");
    reveal_strlit("level");
    reveal_strlit("text");
    reveal_strlit("timestamp");
    reveal_strlit("url");
    reveal_strlit("lineNumber");
    reveal_strlit("stackTrace");
    assert("source"@.len() == 6);
    assert("level"@.len() == 5);
    assert("text"@.len() == 4);
    assert("timestamp"@.len() == 9);
    assert("url"@.len() == 3);
    assert("lineNumber"@.len() == 10);
    assert("stackTrace"@.len() == 10);
    assert("lineNumber"@[0] != "stackTrace"@[0]);
}

pub(crate) proof fn lemma_call_frame_names()
    ensures
        "functionName"@ != "scriptId"@,
        "functionName"@ != "url"@,
        "functionName"@ != "lineNumber"@,
        "functionName"@ != "columnNumber"@,
        "functionName"@ != "callFrames"@,
        "scriptId"@ != "url"@,
        "scriptId"@ != "lineNumber"@,
        "scriptId"@ != "columnNumber"@,
        "scriptId"@ != "callFrames"@,
        "url"@ != "lineNumber"@,
        "url"@ != "columnNumber"@,
        "url"@ != "callFrames"@,
        "lineNumber"@ != "columnNumber"@,
        "lineNumber"@ != "callFrames"@,
        "columnNumber"@ != "callFrames"@,
{
    reveal_strlit("functionName");
    reveal_strlit("scriptId");
    reveal_strlit("url");
    reveal_strlit("lineNumber");
    reveal_strlit("columnNumber");
    reveal_strlit("callFrames");
    assert("functionName"@.len() == 12);
    assert("scriptId"@.len() == 8);
    assert("url"@.len() == 3);
    assert("lineNumber"@.len() == 10);
    assert("columnNumber"@.len() == 12);
    assert("callFrames"@.len() == 10);
    assert("functionName"@[0] != "columnNumber"@[0]);
    assert("lineNumber"@[0] != "callFrames"@[0]);
}

pub(crate) proof fn lemma_children_names()
    ensures
        "parentId"@ != "nodes"@,
{
    reveal_strlit("parentId");
    reveal_strlit("nodes");
    assert("parentId"@.len() == 8);
    assert("nodes"@.len() == 5);
}

pub(crate) proof fn lemma_body_names()
    ensures
        "body"@ != "base64Encoded"@,
{
    reveal_strlit("body");
    reveal_strlit("base64Encoded");
    assert("body"@.len() == 4);
    assert("base64Encoded"@.len() == 13);
}

pub(crate) proof fn lemma_history_names()
    ensures
        "index"@ != "entries"@,
        "index"@ != "id"@,
        "index"@ != "url"@,
        "index"@ != "title"@,
        "index"@ != "userTypedURL"@,
        "entries"@ != "id"@,
        "entries"@ != "url"@,
        "entries"@ != "title"@,
        "entries"@ != "userTypedURL"@,
        "id"@ != "url"@,
        "id"@ != "title"@,
        "id"@ != "userTypedURL"@,
        "url"@ != "title"@,
        "url"@ != "userTypedURL"@,
        "title"@ != "userTypedURL"@,
{
    reveal_strlit("index");
    reveal_strlit("entries");
    reveal_strlit("id");
    reveal_strlit("url");
    reveal_strlit("title");
    reveal_strlit("userTypedURL");
    assert("index"@.len() == 5);
    assert("entries"@.len() == 7);
    assert("id"@.len() == 2);
    assert("url"@.len() == 3);
    assert("title"@.len() == 5);
    assert("userTypedURL"@.len() == 12);
    assert("index"@[0] != "title"@[0]);
}

pub(crate) proof fn lemma_version_names()
    ensures
        "protocolVersion"@ != "product"@,
        "protocolVersion"@ != "revision"@,
        "protocolVersion"@ != "userAgent"@,
        "protocolVersion"@ != "jsVersion"@,
        "product"@ != "revision"@,
        "product"@ != "userAgent"@,
        "product"@ != "jsVersion"@,
        "revision"@ != "userAgent"@,
        "revision"@ != "jsVersion"@,
        "userAgent"@ != "jsVersion"@,
{
    reveal_strlit("protocolVersion");
    reveal_strlit("product");
    reveal_strlit("revision");
    reveal_strlit("userAgent");
    reveal_strlit("jsVersion");
    assert("protocolVersion"@.len() == 15);
    assert("product"@.len() == 7);
    assert("revision"@.len() == 8);
    assert("userAgent"@.len() == 9);
    assert("jsVersion"@.len() == 9);
    assert("userAgent"@[0] != "jsVersion"@[0]);
}

pub(crate) proof fn lemma_metadata_names()
    ensures
        "Browser"@ != "Protocol-Version"@,
        "Browser"@ != "User-Agent"@,
        "Browser"@ != "V8-Version"@,
        "Browser"@ != "WebKit-Version"@,
        "Browser"@ != "jsVersion"@,
        "Browser"@ != "webSocketDebuggerUrl"@,
        "Browser"@ != "host"@,
        "Protocol-Version"@ != "User-Agent"@,
        "Protocol-Version"@ != "V8-Version"@,
        "Protocol-Version"@ != "WebKit-Version"@,
        "Protocol-Version"@ != "jsVersion"@,
        "Protocol-Version"@ != "webSocketDebuggerUrl"@,
        "Protocol-Version"@ != "host"@,
        "User-Agent"@ != "V8-Version"@,
        "User-Agent"@ != "WebKit-Version"@,
        "User-Agent"@ != "jsVersion"@,
        "User-Agent"@ != "webSocketDebuggerUrl"@,
        "User-Agent"@ != "host"@,
        "V8-Version"@ != "WebKit-Version"@,
        "V8-Version"@ != "jsVersion"@,
        "V8-Version"@ != "webSocketDebuggerUrl"@,
        "V8-Version"@ != "host"@,
        "WebKit-Version"@ != "jsVersion"@,
        "WebKit-Version"@ != "webSocketDebuggerUrl"@,
        "WebKit-Version"@ != "host"@,
        "jsVersion"@ != "webSocketDebuggerUrl"@,
        "jsVersion"@ != "host"@,
        "webSocketDebuggerUrl"@ != "host"@,
{
    reveal_strlit("Browser");
    reveal_strlit("Protocol-Version");
    reveal_strlit("User-Agent");
    reveal_strlit("V8-Version");
    reveal_strlit("WebKit-Version");
    reveal_strlit("jsVersion");
    reveal_strlit("webSocketDebuggerUrl");
    reveal_strlit("host");
    assert("Browser"@.len() == 7);
    assert("Protocol-Version"@.len() == 16);
    assert("User-Agent"@.len() == 10);
    assert("V8-Version"@.len() == 10);
    assert("WebKit-Version"@.len() == 14);
    assert("jsVersion"@.len() == 9);
    assert("webSocketDebuggerUrl"@.len() == 20);
    assert("host"@.len() == 4);
    assert("User-Agent"@[0] != "V8-Version"@[0]);
}

pub(crate) proof fn lemma_listed_names()
    ensures
        "description"@ != "devtoolsFrontendUrl"@,
        "description"@ != "id"@,
        "description"@ != "title"@,
        "description"@ != "type"@,
        "description"@ != "url"@,
        "description"@ != "webSocketDebuggerUrl"@,
        "devtoolsFrontendUrl"@ != "id"@,
        "devtoolsFrontendUrl"@ != "title"@,
        "devtoolsFrontendUrl"@ != "type"@,
        "devtoolsFrontendUrl"@ != "url"@,
        "devtoolsFrontendUrl"@ != "webSocketDebuggerUrl"@,
        "id"@ != "title"@,
        "id"@ != "type"@,
        "id"@ != "url"@,
        "id"@ != "webSocketDebuggerUrl"@,
        "title"@ != "type"@,
        "title"@ != "url"@,
        "title"@ != "webSocketDebuggerUrl"@,
        "type"@ != "url"@,
        "type"@ != "webSocketDebuggerUrl"@,
        "url"@ != "webSocketDebuggerUrl"@,
{
    reveal_strlit("description");
    reveal_strlit("devtoolsFrontendUrl");
    reveal_strlit("id");
    reveal_strlit("title");
    reveal_strlit("type");
    reveal_strlit("url");
    reveal_strlit("webSocketDebuggerUrl");
    assert("description"@.len() == 11);
    assert("devtoolsFrontendUrl"@.len() == 19);
    assert("id"@.len() == 2);
    assert("title"@.len() == 5);
    assert("type"@.len() == 4);
    assert("url"@.len() == 3);
    assert("webSocketDebuggerUrl"@.len() == 20);
}

pub(crate) proof fn lemma_navigate_names()
    ensures
        "frameId"@ != "errorText"@,
        "frameId"@ != "loaderId"@,
        "errorText"@ != "loaderId"@,
{
    reveal_strlit("frameId");
    reveal_strlit("errorText");
    reveal_strlit("loaderId");
    assert("frameId"@.len() == 7);
    assert("errorText"@.len() == 9);
    assert("loaderId"@.len() == 8);
}

pub(crate) proof fn lemma_metrics_names()
    ensures
        "name"@ != "value"@,
        "name"@ != "metrics"@,
        "value"@ != "metrics"@,
{
    reveal_strlit("name");
    reveal_strlit("value");
    reveal_strlit("metrics");
    assert("name"@.len() == 4);
    assert("value"@.len() == 5);
    assert("metrics"@.len() == 7);
}

pub(crate) proof fn lemma_kind_names()
    ensures
        "undefined"@ != "object"@,
        "undefined"@ != "boolean"@,
        "undefined"@ != "number"@,
        "undefined"@ != "string"@,
        "undefined"@ != "null"@,
        "object"@ != "boolean"@,
        "object"@ != "number"@,
        "object"@ != "string"@,
        "object"@ != "null"@,
        "boolean"@ != "number"@,
        "boolean"@ != "string"@,
        "boolean"@ != "null"@,
        "number"@ != "string"@,
        "number"@ != "null"@,
        "string"@ != "null"@,
{
    reveal_strlit("undefined");
    reveal_strlit("object");
    reveal_strlit("boolean");
    reveal_strlit("number");
    reveal_strlit("string");
    reveal_strlit("null");
    assert("undefined"@.len() == 9);
    assert("object"@.len() == 6);
    assert("boolean"@.len() == 7);
    assert("number"@.len() == 6);
    assert("string"@.len() == 6);
    assert("null"@.len() == 4);
    assert("object"@[0] != "number"@[0]);
    assert("object"@[0] != "string"@[0]);
    assert("number"@[0] != "string"@[0]);
}

pub(crate) proof fn lemma_number_names()
    ensures
        "NaN"@ != "Infinity"@,
        "NaN"@ != "-Infinity"@,
        "Infinity"@ != "-Infinity"@,
{
    reveal_strlit("NaN");
    reveal_strlit("Infinity");
    reveal_strlit("-Infinity");
    assert("NaN"@.len() == 3);
    assert("Infinity"@.len() == 8);
    assert("-Infinity"@.len() == 9);
}

pub(crate) proof fn lemma_level_names()
    ensures
        "log"@ != "debug"@,
        "log"@ != "info"@,
        "log"@ != "warning"@,
        "log"@ != "error"@,
        "log"@ != "trace"@,
        "log"@ != "dir"@,
        "debug"@ != "info"@,
        "debug"@ != "warning"@,
        "debug"@ != "error"@,
        "debug"@ != "trace"@,
        "debug"@ != "dir"@,
        "info"@ != "warning"@,
        "info"@ != "error"@,
        "info"@ != "trace"@,
        "info"@ != "dir"@,
        "warning"@ != "error"@,
        "warning"@ != "trace"@,
        "warning"@ != "dir"@,
        "error"@ != "trace"@,
        "error"@ != "dir"@,
        "trace"@ != "dir"@,
{
    reveal_strlit("log");
    reveal_strlit("debug");
    reveal_strlit("info");
    reveal_strlit("warning");
    reveal_strlit("error");
    reveal_strlit("trace");
    reveal_strlit("dir");
    assert("log"@.len() == 3);
    assert("debug"@.len() == 5);
    assert("info"@.len() == 4);
    assert("warning"@.len() == 7);
    assert("error"@.len() == 5);
    assert("trace"@.len() == 5);
    assert("dir"@.len() == 3);
    assert("log"@[0] != "dir"@[0]);
    assert("debug"@[0] != "error"@[0]);
    assert("debug"@[0] != "trace"@[0]);
    assert("error"@[0] != "trace"@[0]);
}

pub(crate) proof fn lemma_status_names()
    ensures
        ""@ != "OK"@,
        ""@ != "No Content"@,
        ""@ != "Moved Permanently"@,
        ""@ != "Found"@,
        ""@ != "Not Modified"@,
        ""@ != "Temporary Redirect"@,
        ""@ != "Permanent Redirect"@,
        ""@ != "Bad Request"@,
        ""@ != "Unauthorized"@,
        ""@ != "Forbidden"@,
        ""@ != "Not Found"@,
        ""@ != "Internal Server Error"@,
        ""@ != "Bad Gateway"@,
        ""@ != "Service Unavailable"@,
        "OK"@ != "No Content"@,
        "OK"@ != "Moved Permanently"@,
        "OK"@ != "Found"@,
        "OK"@ != "Not Modified"@,
        "OK"@ != "Temporary Redirect"@,
        "OK"@ != "Permanent Redirect"@,
        "OK"@ != "Bad Request"@,
        "OK"@ != "Unauthorized"@,
        "OK"@ != "Forbidden"@,
        "OK"@ != "Not Found"@,
        "OK"@ != "Internal Server Error"@,
        "OK"@ != "Bad Gateway"@,
        "OK"@ != "Service Unavailable"@,
        "No Content"@ != "Moved Permanently"@,
        "No Content"@ != "Found"@,
        "No Content"@ != "Not Modified"@,
        "No Content"@ != "Temporary Redirect"@,
        "No Content"@ != "Permanent Redirect"@,
        "No Content"@ != "Bad Request"@,
        "No Content"@ != "Unauthorized"@,
        "No Content"@ != "Forbidden"@,
        "No Content"@ != "Not Found"@,
        "No Content"@ != "Internal Server Error"@,
        "No Content"@ != "Bad Gateway"@,
        "No Content"@ != "Service Unavailable"@,
        "Moved Permanently"@ != "Found"@,
        "Moved Permanently"@ != "Not Modified"@,
        "Moved Permanently"@ != "Temporary Redirect"@,
        "Moved Permanently"@ != "Permanent Redirect"@,
        "Moved Permanently"@ != "Bad Request"@,
        "Moved Permanently"@ != "Unauthorized"@,
        "Moved Permanently"@ != "Forbidden"@,
        "Moved Permanently"@ != "Not Found"@,
        "Moved Permanently"@ != "Internal Server Error"@,
        "Moved Permanently"@ != "Bad Gateway"@,
        "Moved Permanently"@ != "Service Unavailable"@,
        "Found"@ != "Not Modified"@,
        "Found"@ != "Temporary Redirect"@,
        "Found"@ != "Permanent Redirect"@,
        "Found"@ != "Bad Request"@,
        "Found"@ != "Unauthorized"@,
        "Found"@ != "Forbidden"@,
        "Found"@ != "Not Found"@,
        "Found"@ != "Internal Server Error"@,
        "Found"@ != "Bad Gateway"@,
        "Found"@ != "Service Unavailable"@,
        "Not Modified"@ != "Temporary Redirect"@,
        "Not Modified"@ != "Permanent Redirect"@,
        "Not Modified"@ != "Bad Request"@,
        "Not Modified"@ != "Unauthorized"@,
        "Not Modified"@ != "Forbidden"@,
        "Not Modified"@ != "Not Found"@,
        "Not Modified"@ != "Internal Server Error"@,
        "Not Modified"@ != "Bad Gateway"@,
        "Not Modified"@ != "Service Unavailable"@,
        "Temporary Redirect"@ != "Permanent Redirect"@,
        "Temporary Redirect"@ != "Bad Request"@,
        "Temporary Redirect"@ != "Unauthorized"@,
        "Temporary Redirect"@ != "Forbidden"@,
        "Temporary Redirect"@ != "Not Found"@,
        "Temporary Redirect"@ != "Internal Server Error"@,
        "Temporary Redirect"@ != "Bad Gateway"@,
        "Temporary Redirect"@ != "Service Unavailable"@,
        "Permanent Redirect"@ != "Bad Request"@,
        "Permanent Redirect"@ != "Unauthorized"@,
        "Permanent Redirect"@ != "Forbidden"@,
        "Permanent Redirect"@ != "Not Found"@,
        "Permanent Redirect"@ != "Internal Server Error"@,
        "Permanent Redirect"@ != "Bad Gateway"@,
        "Permanent Redirect"@ != "Service Unavailable"@,
        "Bad Request"@ != "Unauthorized"@,
        "Bad Request"@ != "Forbidden"@,
        "Bad Request"@ != "Not Found"@,
        "Bad Request"@ != "Internal Server Error"@,
        "Bad Request"@ != "Bad Gateway"@,
        "Bad Request"@ != "Service Unavailable"@,
        "Unauthorized"@ != "Forbidden"@,
        "Unauthorized"@ != "Not Found"@,
        "Unauthorized"@ != "Internal Server Error"@,
        "Unauthorized"@ != "Bad Gateway"@,
        "Unauthorized"@ != "Service Unavailable"@,
        "Forbidden"@ != "Not Found"@,
        "Forbidden"@ != "Internal Server Error"@,
        "Forbidden"@ != "Bad Gateway"@,
        "Forbidden"@ != "Service Unavailable"@,
        "Not Found"@ != "Internal Server Error"@,
        "Not Found"@ != "Bad Gateway"@,
        "Not Found"@ != "Service Unavailable"@,
        "Internal Server Error"@ != "Bad Gateway"@,
        "Internal Server Error"@ != "Service Unavailable"@,
        "Bad Gateway"@ != "Service Unavailable"@,
{
    reveal_strlit("");
    reveal_strlit("OK");
    reveal_strlit("No Content");
    reveal_strlit("Moved Permanently");
    reveal_strlit("Found");
    reveal_strlit("Not Modified");
    reveal_strlit("Temporary Redirect");
    reveal_strlit("Permanent Redirect");
    reveal_strlit("Bad Request");
    reveal_strlit("Unauthorized");
    reveal_strlit("Forbidden");
    reveal_strlit("Not Found");
    reveal_strlit("Internal Server Error");
    reveal_strlit("Bad Gateway");
    reveal_strlit("Service Unavailable");
    assert(""@.len() == 0);
    assert("OK"@.len() == 2);
    assert("No Content"@.len() == 10);
    assert("Moved Permanently"@.len() == 17);
    assert("Found"@.len() == 5);
    assert("Not Modified"@.len() == 12);
    assert("Temporary Redirect"@.len() == 18);
    assert("Permanent Redirect"@.len() == 18);
    assert("Bad Request"@.len() == 11);
    assert("Unauthorized"@.len() == 12);
    assert("Forbidden"@.len() == 9);
    assert("Not Found"@.len() == 9);
    assert("Internal Server Error"@.len() == 21);
    assert("Bad Gateway"@.len() == 11);
    assert("Service Unavailable"@.len() == 19);
    assert("Not Modified"@[0] != "Unauthorized"@[0]);
    assert("Temporary Redirect"@[0] != "Permanent Redirect"@[0]);
    assert("Bad Request"@[4] != "Bad Gateway"@[4]);
    assert("Forbidden"@[0] != "Not Found"@[0]);
}

pub(crate) proof fn lemma_window_names()
    ensures
        "windowId"@ != "bounds"@,
        "windowId"@ != "left"@,
        "windowId"@ != "top"@,
        "windowId"@ != "width"@,
        "windowId"@ != "height"@,
        "windowId"@ != "windowState"@,
        "bounds"@ != "left"@,
        "bounds"@ != "top"@,
        "bounds"@ != "width"@,
        "bounds"@ != "height"@,
        "bounds"@ != "windowState"@,
        "left"@ != "top"@,
        "left"@ != "width"@,
        "left"@ != "height"@,
        "left"@ != "windowState"@,
        "top"@ != "width"@,
        "top"@ != "height"@,
        "top"@ != "windowState"@,
        "width"@ != "height"@,
        "width"@ != "windowState"@,
        "height"@ != "windowState"@,
{
    reveal_strlit("windowId");
    reveal_strlit("bounds");
    reveal_strlit("left");
    reveal_strlit("top");
    reveal_strlit("width");
    reveal_strlit("height");
    reveal_strlit("windowState");
    assert("windowId"@.len() == 8);
    assert("bounds"@.len() == 6);
    assert("left"@.len() == 4);
    assert("top"@.len() == 3);
    assert("width"@.len() == 5);
    assert("height"@.len() == 6);
    assert("windowState"@.len() == 11);
    assert("bounds"@[0] != "height"@[0]);
}

} // verus!
