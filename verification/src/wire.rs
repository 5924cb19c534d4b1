//! The wire form of the messages: each request and each response as a JSON
//! value, and as the line of text that carries it.
//!
//! A message is an array of two items: the kind of the message, a string,
//! and its payload. A line holds one message and ends with a line feed.

use crate::args::texts;
use crate::json::{items_view, json_text, members_view, to_text, Json, JsonValue};
use crate::parse::{parse, parse_json};
use crate::protocol::{optional_text, Request, RequestView, Response, ResponseView};
use crate::registry::{
    match_args, pending_matches, MatchArg, MatchArgView, PendingMatch, PendingMatchView,
};
use crate::text::{push_char, same_text};
use vstd::prelude::*;

verus! {

/// The value of the first member of an object from `from` on whose key is
/// `key`.
pub open spec fn field_from(members: Seq<(Seq<char>, JsonValue)>, key: Seq<char>, from: int) -> Option<
    JsonValue,
>
    decreases members.len() - from,
{
    if from < 0 || from >= members.len() {
        None
    } else if members[from].0 == key {
        Some(members[from].1)
    } else {
        field_from(members, key, from + 1)
    }
}

/// The value of the first member of an object whose key is `key`.
pub open spec fn field(members: Seq<(Seq<char>, JsonValue)>, key: Seq<char>) -> Option<JsonValue> {
    field_from(members, key, 0)
}

/// The string that the member `key` of an object holds, if the object has
/// the member and it holds a string.
pub open spec fn text_field(members: Seq<(Seq<char>, JsonValue)>, key: Seq<char>) -> Option<
    Seq<char>,
> {
    match field(members, key) {
        Some(JsonValue::Text(text)) => Some(text),
        _ => None,
    }
}

/// A message: its kind and its payload.
pub open spec fn message(kind: Seq<char>, payload: JsonValue) -> JsonValue {
    JsonValue::Array(seq![JsonValue::Text(kind), payload])
}

/// An object with one member that holds a string.
pub open spec fn object1(key: Seq<char>, text: Seq<char>) -> JsonValue {
    JsonValue::Object(seq![(key, JsonValue::Text(text))])
}

/// The JSON value of an argument of a match.
pub open spec fn arg_json(arg: MatchArgView) -> JsonValue {
    JsonValue::Object(
        seq![("val"@, JsonValue::Text(arg.val)), ("pos"@, JsonValue::Number(arg.pos as u64))],
    )
}

/// The JSON value of a match.
pub open spec fn match_json(found: PendingMatchView) -> JsonValue {
    JsonValue::Object(
        seq![
            ("id"@, JsonValue::Text(found.id)),
            ("args"@, JsonValue::Array(found.args.map_values(|a: MatchArgView| arg_json(a)))),
        ],
    )
}

/// The JSON value of a response.
pub open spec fn response_json(response: ResponseView) -> JsonValue {
    match response {
        ResponseView::Success => message("success"@, JsonValue::Null),
        ResponseView::StepMatches(found) => message(
            "success"@,
            JsonValue::Array(found.map_values(|m: PendingMatchView| match_json(m))),
        ),
        ResponseView::InvokeResult { text } => message(
            "success"@,
            object1("invoke_result_text"@, text),
        ),
        ResponseView::Snippet { snippet } => message("success"@, object1("snippet"@, snippet)),
        ResponseView::Fail { message: text, exception } => message(
            "fail"@,
            JsonValue::Object(
                seq![
                    ("message"@, JsonValue::Text(text)),
                    ("exception"@, JsonValue::Text(exception)),
                ],
            ),
        ),
        ResponseView::Pending { message: text } => message("pending"@, object1("message"@, text)),
    }
}

/// The argument of a match that a JSON value stands for: an object with a
/// string `val` and a number `pos` that is an offset on this machine.
pub open spec fn json_arg(value: JsonValue) -> Option<MatchArgView> {
    match value {
        JsonValue::Object(members) => match (text_field(members, "val"@), field(members, "pos"@)) {
            (Some(val), Some(JsonValue::Number(pos))) => if pos <= usize::MAX {
                Some(MatchArgView { val, pos: pos as usize })
            } else {
                None
            },
            _ => None,
        },
        _ => None,
    }
}

/// The arguments that the items of an array stand for, if each stands for
/// one.
pub open spec fn json_args(items: Seq<JsonValue>) -> Option<Seq<MatchArgView>> {
    if forall|i: int| 0 <= i < items.len() ==> json_arg(#[trigger] items[i]) is Some {
        Some(items.map_values(|v: JsonValue| json_arg(v).unwrap()))
    } else {
        None
    }
}

/// The match that a JSON value stands for: an object with a string `id` and
/// an array `args` of arguments.
pub open spec fn json_match(value: JsonValue) -> Option<PendingMatchView> {
    match value {
        JsonValue::Object(members) => match (text_field(members, "id"@), field(members, "args"@)) {
            (Some(id), Some(JsonValue::Array(items))) => match json_args(items) {
                Some(args) => Some(PendingMatchView { id, args }),
                None => None,
            },
            _ => None,
        },
        _ => None,
    }
}

/// The matches that the items of an array stand for, if each stands for one.
pub open spec fn json_matches(items: Seq<JsonValue>) -> Option<Seq<PendingMatchView>> {
    if forall|i: int| 0 <= i < items.len() ==> json_match(#[trigger] items[i]) is Some {
        Some(items.map_values(|v: JsonValue| json_match(v).unwrap()))
    } else {
        None
    }
}

/// The response that the payload of a `success` stands for.
pub open spec fn json_success(payload: JsonValue) -> Option<ResponseView> {
    match payload {
        JsonValue::Null => Some(ResponseView::Success),
        JsonValue::Array(items) => match json_matches(items) {
            Some(found) => Some(ResponseView::StepMatches(found)),
            None => None,
        },
        JsonValue::Object(members) => match text_field(members, "invoke_result_text"@) {
            Some(text) => Some(ResponseView::InvokeResult { text }),
            None => match text_field(members, "snippet"@) {
                Some(snippet) => Some(ResponseView::Snippet { snippet }),
                None => None,
            },
        },
        _ => None,
    }
}

/// The response that the payload of a `fail` stands for.
pub open spec fn json_fail(payload: JsonValue) -> Option<ResponseView> {
    match payload {
        JsonValue::Object(members) => match (
            text_field(members, "message"@),
            text_field(members, "exception"@),
        ) {
            (Some(text), Some(exception)) => Some(ResponseView::Fail { message: text, exception }),
            _ => None,
        },
        _ => None,
    }
}

/// The response that the payload of a `pending` stands for.
pub open spec fn json_pending(payload: JsonValue) -> Option<ResponseView> {
    match payload {
        JsonValue::Object(members) => match text_field(members, "message"@) {
            Some(text) => Some(ResponseView::Pending { message: text }),
            None => None,
        },
        _ => None,
    }
}

/// The kind and the payload of a message, if the value is a message: an
/// array of two items whose first is a string.
pub open spec fn json_message(value: JsonValue) -> Option<(Seq<char>, JsonValue)> {
    match value {
        JsonValue::Array(items) => if items.len() == 2 {
            match items[0] {
                JsonValue::Text(kind) => Some((kind, items[1])),
                _ => None,
            }
        } else {
            None
        },
        _ => None,
    }
}

/// The response that a JSON value stands for, if it stands for one.
pub open spec fn json_response(value: JsonValue) -> Option<ResponseView> {
    match json_message(value) {
        Some((kind, payload)) => if kind == "success"@ {
            json_success(payload)
        } else if kind == "fail"@ {
            json_fail(payload)
        } else if kind == "pending"@ {
            json_pending(payload)
        } else {
            None
        },
        None => None,
    }
}

/// The JSON value of a string that may be absent: `null` where it is.
pub open spec fn optional_json(text: Option<Seq<char>>) -> JsonValue {
    match text {
        Some(text) => JsonValue::Text(text),
        None => JsonValue::Null,
    }
}

/// The JSON value of a request.
pub open spec fn request_json(request: RequestView) -> JsonValue {
    match request {
        RequestView::BeginScenario => message("begin_scenario"@, JsonValue::Object(Seq::empty())),
        RequestView::EndScenario => message("end_scenario"@, JsonValue::Object(Seq::empty())),
        RequestView::StepMatches { name_to_match } => message(
            "step_matches"@,
            object1("name_to_match"@, name_to_match),
        ),
        RequestView::Invoke { id, args } => message(
            "invoke"@,
            JsonValue::Object(
                seq![
                    ("id"@, JsonValue::Text(id)),
                    ("args"@, JsonValue::Array(args.map_values(|a: Seq<char>| JsonValue::Text(a)))),
                ],
            ),
        ),
        RequestView::SnippetText { step_keyword, step_name, multiline_arg_class } => message(
            "snippet_text"@,
            JsonValue::Object(
                seq![
                    ("step_keyword"@, JsonValue::Text(step_keyword)),
                    ("step_name"@, JsonValue::Text(step_name)),
                    ("multiline_arg_class"@, optional_json(multiline_arg_class)),
                ],
            ),
        ),
    }
}

/// The strings that the items of an array hold, if each holds one.
pub open spec fn json_texts(items: Seq<JsonValue>) -> Option<Seq<Seq<char>>> {
    if forall|i: int| 0 <= i < items.len() ==> (#[trigger] items[i]) is Text {
        Some(items.map_values(|v: JsonValue| v->Text_0))
    } else {
        None
    }
}

/// The request to run a step that a payload stands for: an object with a
/// string `id` and an array `args` of strings.
pub open spec fn json_invoke(payload: JsonValue) -> Option<RequestView> {
    match payload {
        JsonValue::Object(members) => match (text_field(members, "id"@), field(members, "args"@)) {
            (Some(id), Some(JsonValue::Array(items))) => match json_texts(items) {
                Some(args) => Some(RequestView::Invoke { id, args }),
                None => None,
            },
            _ => None,
        },
        _ => None,
    }
}

/// The request for a skeleton that a payload stands for: an object with the
/// strings `step_keyword` and `step_name`, and with `multiline_arg_class` a
/// string, `null` or left out.
pub open spec fn json_snippet(payload: JsonValue) -> Option<RequestView> {
    match payload {
        JsonValue::Object(members) => match (
            text_field(members, "step_keyword"@),
            text_field(members, "step_name"@),
        ) {
            (Some(step_keyword), Some(step_name)) => match field(
                members,
                "multiline_arg_class"@,
            ) {
                Some(JsonValue::Text(class)) => Some(
                    RequestView::SnippetText {
                        step_keyword,
                        step_name,
                        multiline_arg_class: Some(class),
                    },
                ),
                Some(JsonValue::Null) => Some(
                    RequestView::SnippetText { step_keyword, step_name, multiline_arg_class: None },
                ),
                None => Some(
                    RequestView::SnippetText { step_keyword, step_name, multiline_arg_class: None },
                ),
                _ => None,
            },
            _ => None,
        },
        _ => None,
    }
}

/// The request that a JSON value stands for, if it stands for one: a message
/// of one of the five kinds with a payload of the shape of its kind. The
/// payload of `begin_scenario` and of `end_scenario` is an object, whatever it
/// holds. Members that a shape does not name are passed over.
pub open spec fn json_request(value: JsonValue) -> Option<RequestView> {
    match json_message(value) {
        Some((kind, payload)) => if kind == "begin_scenario"@ {
            if payload is Object {
                Some(RequestView::BeginScenario)
            } else {
                None
            }
        } else if kind == "end_scenario"@ {
            if payload is Object {
                Some(RequestView::EndScenario)
            } else {
                None
            }
        } else if kind == "step_matches"@ {
            match payload {
                JsonValue::Object(members) => match text_field(members, "name_to_match"@) {
                    Some(name_to_match) => Some(RequestView::StepMatches { name_to_match }),
                    None => None,
                },
                _ => None,
            }
        } else if kind == "invoke"@ {
            json_invoke(payload)
        } else if kind == "snippet_text"@ {
            json_snippet(payload)
        } else {
            None
        },
        None => None,
    }
}

/// The line that carries a response.
pub open spec fn response_line(response: ResponseView) -> Seq<char> {
    json_text(response_json(response)) + seq!['\n']
}

/// The line that carries a request.
pub open spec fn request_line(request: RequestView) -> Seq<char> {
    json_text(request_json(request)) + seq!['\n']
}

/// The request that a line carries: `None` where the line is no JSON text,
/// or is one that stands for no request.
pub open spec fn line_request(line: Seq<char>) -> Option<RequestView> {
    match parse_json(line) {
        Some(value) => json_request(value),
        None => None,
    }
}

/// The response that a line carries: `None` where the line is no JSON text,
/// or is one that stands for no response.
pub open spec fn line_response(line: Seq<char>) -> Option<ResponseView> {
    match parse_json(line) {
        Some(value) => json_response(value),
        None => None,
    }
}

fn text_value(text: &str) -> (value: Json)
    ensures
        value@ == JsonValue::Text(text@),
{
    Json::Text(text.to_owned())
}

fn message_value(kind: &str, payload: Json) -> (value: Json)
    ensures
        value@ == message(kind@, payload@),
{
    let mut items: Vec<Json> = Vec::new();
    items.push(text_value(kind));
    items.push(payload);
    assert(items_view(items@) =~= seq![JsonValue::Text(kind@), payload@]);
    Json::Array(items)
}

fn object1_value(key: &str, text: &str) -> (value: Json)
    ensures
        value@ == object1(key@, text@),
{
    let mut members: Vec<(String, Json)> = Vec::new();
    members.push((key.to_owned(), text_value(text)));
    assert(members_view(members@) =~= seq![(key@, JsonValue::Text(text@))]);
    Json::Object(members)
}

fn object2_value(key1: &str, value1: Json, key2: &str, value2: Json) -> (value: Json)
    ensures
        value@ == JsonValue::Object(seq![(key1@, value1@), (key2@, value2@)]),
{
    let mut members: Vec<(String, Json)> = Vec::new();
    members.push((key1.to_owned(), value1));
    members.push((key2.to_owned(), value2));
    assert(members_view(members@) =~= seq![(key1@, value1@), (key2@, value2@)]);
    Json::Object(members)
}

fn arg_value(arg: &MatchArg) -> (value: Json)
    ensures
        value@ == arg_json(arg@),
{
    object2_value("val", text_value(arg.val.as_str()), "pos", Json::Number(arg.pos as u64))
}

fn match_value(found: &PendingMatch) -> (value: Json)
    ensures
        value@ == match_json(found@),
{
    let mut items: Vec<Json> = Vec::new();
    let mut i: usize = 0;
    while i < found.args.len()
        invariant
            i <= found.args.len(),
            items.len() == i,
            forall|j: int| 0 <= j < i ==> (#[trigger] items@[j])@ == arg_json(found.args@[j]@),
        decreases found.args.len() - i,
    {
        items.push(arg_value(&found.args[i]));
        i += 1;
    }
    assert(items_view(items@) =~= found@.args.map_values(|a: MatchArgView| arg_json(a)));
    object2_value("id", text_value(found.id.as_str()), "args", Json::Array(items))
}

/// The JSON value of a response.
pub fn encode_response(response: &Response) -> (value: Json)
    ensures
        value@ == response_json(response@),
{
    match response {
        Response::Success => message_value("success", Json::Null),
        Response::StepMatches(found) => {
            let mut items: Vec<Json> = Vec::new();
            let mut i: usize = 0;
            while i < found.len()
                invariant
                    i <= found.len(),
                    items.len() == i,
                    forall|j: int|
                        0 <= j < i ==> (#[trigger] items@[j])@ == match_json(found@[j]@),
                decreases found.len() - i,
            {
                items.push(match_value(&found[i]));
                i += 1;
            }
            assert(items_view(items@) =~= pending_matches(found@).map_values(
                |m: PendingMatchView| match_json(m),
            ));
            message_value("success", Json::Array(items))
        },
        Response::InvokeResult { text } => message_value(
            "success",
            object1_value("invoke_result_text", text.as_str()),
        ),
        Response::Snippet { snippet } => message_value(
            "success",
            object1_value("snippet", snippet.as_str()),
        ),
        Response::Fail { message, exception } => message_value(
            "fail",
            object2_value(
                "message",
                text_value(message.as_str()),
                "exception",
                text_value(exception.as_str()),
            ),
        ),
        Response::Pending { message } => message_value(
            "pending",
            object1_value("message", message.as_str()),
        ),
    }
}

/// The JSON value of a request.
pub fn encode_request(request: &Request) -> (value: Json)
    ensures
        value@ == request_json(request@),
{
    match request {
        Request::BeginScenario => {
            let members: Vec<(String, Json)> = Vec::new();
            assert(members_view(members@) =~= Seq::<(Seq<char>, JsonValue)>::empty());
            message_value("begin_scenario", Json::Object(members))
        },
        Request::EndScenario => {
            let members: Vec<(String, Json)> = Vec::new();
            assert(members_view(members@) =~= Seq::<(Seq<char>, JsonValue)>::empty());
            message_value("end_scenario", Json::Object(members))
        },
        Request::StepMatches { name_to_match } => message_value(
            "step_matches",
            object1_value("name_to_match", name_to_match.as_str()),
        ),
        Request::Invoke { id, args } => {
            let mut items: Vec<Json> = Vec::new();
            let mut i: usize = 0;
            while i < args.len()
                invariant
                    i <= args.len(),
                    items.len() == i,
                    forall|j: int|
                        0 <= j < i ==> (#[trigger] items@[j])@ == JsonValue::Text(args@[j]@),
                decreases args.len() - i,
            {
                items.push(text_value(args[i].as_str()));
                i += 1;
            }
            assert(items_view(items@) =~= texts(args@).map_values(
                |a: Seq<char>| JsonValue::Text(a),
            ));
            message_value(
                "invoke",
                object2_value("id", text_value(id.as_str()), "args", Json::Array(items)),
            )
        },
        Request::SnippetText { step_keyword, step_name, multiline_arg_class } => {
            let class = match multiline_arg_class {
                Some(class) => text_value(class.as_str()),
                None => Json::Null,
            };
            let mut members: Vec<(String, Json)> = Vec::new();
            members.push(("step_keyword".to_owned(), text_value(step_keyword.as_str())));
            members.push(("step_name".to_owned(), text_value(step_name.as_str())));
            members.push(("multiline_arg_class".to_owned(), class));
            assert(members_view(members@) =~= seq![
                ("step_keyword"@, JsonValue::Text(step_keyword@)),
                ("step_name"@, JsonValue::Text(step_name@)),
                ("multiline_arg_class"@, optional_json(optional_text(*multiline_arg_class))),
            ]);
            message_value("snippet_text", Json::Object(members))
        },
    }
}

/// The value of the first member of an object whose key is `key`.
fn lookup<'a>(members: &'a Vec<(String, Json)>, key: &str) -> (r: Option<&'a Json>)
    ensures
        match r {
            Some(value) => field(members_view(members@), key@) == Some(value@),
            None => field(members_view(members@), key@) is None,
        },
{
    let mut i: usize = 0;
    while i < members.len()
        invariant
            i <= members.len(),
            field(members_view(members@), key@) == field_from(
                members_view(members@),
                key@,
                i as int,
            ),
        decreases members.len() - i,
    {
        if same_text(members[i].0.as_str(), key) {
            return Some(&members[i].1);
        }
        i += 1;
    }
    None
}

/// The string that the member `key` of an object holds.
fn lookup_text(members: &Vec<(String, Json)>, key: &str) -> (r: Option<String>)
    ensures
        optional_text(r) == text_field(members_view(members@), key@),
{
    match lookup(members, key) {
        Some(Json::Text(text)) => Some(text.clone()),
        _ => None,
    }
}

fn decode_arg(value: &Json) -> (r: Option<MatchArg>)
    ensures
        match r {
            Some(arg) => json_arg(value@) == Some(arg@),
            None => json_arg(value@) is None,
        },
{
    match value {
        Json::Object(members) => {
            let val = match lookup_text(members, "val") {
                Some(val) => val,
                None => {
                    return None;
                },
            };
            match lookup(members, "pos") {
                Some(Json::Number(pos)) => if *pos <= usize::MAX as u64 {
                    Some(MatchArg { val, pos: *pos as usize })
                } else {
                    None
                },
                _ => None,
            }
        },
        _ => None,
    }
}

fn decode_args(items: &Vec<Json>) -> (r: Option<Vec<MatchArg>>)
    ensures
        match r {
            Some(args) => json_args(items_view(items@)) == Some(match_args(args@)),
            None => json_args(items_view(items@)) is None,
        },
{
    let ghost views = items_view(items@);
    let mut args: Vec<MatchArg> = Vec::new();
    let mut i: usize = 0;
    while i < items.len()
        invariant
            i <= items.len(),
            views == items_view(items@),
            args.len() == i,
            forall|j: int| 0 <= j < i ==> json_arg(#[trigger] views[j]) == Some(args@[j]@),
        decreases items.len() - i,
    {
        match decode_arg(&items[i]) {
            Some(arg) => {
                args.push(arg);
            },
            None => {
                assert(json_arg(views[i as int]) is None);
                return None;
            },
        }
        i += 1;
    }
    assert(match_args(args@) =~= views.map_values(|v: JsonValue| json_arg(v).unwrap()));
    Some(args)
}

fn decode_match(value: &Json) -> (r: Option<PendingMatch>)
    ensures
        match r {
            Some(found) => json_match(value@) == Some(found@),
            None => json_match(value@) is None,
        },
{
    match value {
        Json::Object(members) => {
            let id = match lookup_text(members, "id") {
                Some(id) => id,
                None => {
                    return None;
                },
            };
            match lookup(members, "args") {
                Some(Json::Array(items)) => match decode_args(items) {
                    Some(args) => Some(PendingMatch { id, args }),
                    None => None,
                },
                _ => None,
            }
        },
        _ => None,
    }
}

fn decode_matches(items: &Vec<Json>) -> (r: Option<Vec<PendingMatch>>)
    ensures
        match r {
            Some(found) => json_matches(items_view(items@)) == Some(pending_matches(found@)),
            None => json_matches(items_view(items@)) is None,
        },
{
    let ghost views = items_view(items@);
    let mut found: Vec<PendingMatch> = Vec::new();
    let mut i: usize = 0;
    while i < items.len()
        invariant
            i <= items.len(),
            views == items_view(items@),
            found.len() == i,
            forall|j: int| 0 <= j < i ==> json_match(#[trigger] views[j]) == Some(found@[j]@),
        decreases items.len() - i,
    {
        match decode_match(&items[i]) {
            Some(m) => {
                found.push(m);
            },
            None => {
                assert(json_match(views[i as int]) is None);
                return None;
            },
        }
        i += 1;
    }
    assert(pending_matches(found@) =~= views.map_values(|v: JsonValue| json_match(v).unwrap()));
    Some(found)
}

fn decode_texts(items: &Vec<Json>) -> (r: Option<Vec<String>>)
    ensures
        match r {
            Some(all) => json_texts(items_view(items@)) == Some(texts(all@)),
            None => json_texts(items_view(items@)) is None,
        },
{
    let ghost views = items_view(items@);
    let mut all: Vec<String> = Vec::new();
    let mut i: usize = 0;
    while i < items.len()
        invariant
            i <= items.len(),
            views == items_view(items@),
            all.len() == i,
            forall|j: int| 0 <= j < i ==> (#[trigger] views[j]) == JsonValue::Text(all@[j]@),
        decreases items.len() - i,
    {
        match &items[i] {
            Json::Text(text) => {
                all.push(text.clone());
            },
            _ => {
                assert(!(views[i as int] is Text));
                return None;
            },
        }
        i += 1;
    }
    assert(texts(all@) =~= views.map_values(|v: JsonValue| v->Text_0));
    Some(all)
}

/// The kind and the payload of a message.
fn decode_message(value: &Json) -> (r: Option<(&String, &Json)>)
    ensures
        match r {
            Some((kind, payload)) => json_message(value@) == Some((kind@, payload@)),
            None => json_message(value@) is None,
        },
{
    match value {
        Json::Array(items) => {
            if items.len() != 2 {
                return None;
            }
            proof {
                let views = items_view(items@);
                assert(views[0] == items@[0]@);
                assert(views[1] == items@[1]@);
            }
            match &items[0] {
                Json::Text(kind) => Some((kind, &items[1])),
                _ => None,
            }
        },
        _ => None,
    }
}

/// The response that a JSON value stands for.
pub fn decode_response(value: &Json) -> (r: Option<Response>)
    ensures
        match r {
            Some(response) => json_response(value@) == Some(response@),
            None => json_response(value@) is None,
        },
{
    let (kind, payload) = match decode_message(value) {
        Some(parts) => parts,
        None => {
            return None;
        },
    };
    if same_text(kind.as_str(), "success") {
        match payload {
            Json::Null => Some(Response::Success),
            Json::Array(items) => match decode_matches(items) {
                Some(found) => Some(Response::StepMatches(found)),
                None => None,
            },
            Json::Object(members) => match lookup_text(members, "invoke_result_text") {
                Some(text) => Some(Response::InvokeResult { text }),
                None => match lookup_text(members, "snippet") {
                    Some(snippet) => Some(Response::Snippet { snippet }),
                    None => None,
                },
            },
            _ => None,
        }
    } else if same_text(kind.as_str(), "fail") {
        match payload {
            Json::Object(members) => match (
                lookup_text(members, "message"),
                lookup_text(members, "exception"),
            ) {
                (Some(message), Some(exception)) => Some(Response::Fail { message, exception }),
                _ => None,
            },
            _ => None,
        }
    } else if same_text(kind.as_str(), "pending") {
        match payload {
            Json::Object(members) => match lookup_text(members, "message") {
                Some(message) => Some(Response::Pending { message }),
                None => None,
            },
            _ => None,
        }
    } else {
        None
    }
}

/// The request that a JSON value stands for.
pub fn decode_request(value: &Json) -> (r: Option<Request>)
    ensures
        match r {
            Some(request) => json_request(value@) == Some(request@),
            None => json_request(value@) is None,
        },
{
    let (kind, payload) = match decode_message(value) {
        Some(parts) => parts,
        None => {
            return None;
        },
    };
    let members = match payload {
        Json::Object(members) => members,
        _ => {
            return None;
        },
    };
    if same_text(kind.as_str(), "begin_scenario") {
        Some(Request::BeginScenario)
    } else if same_text(kind.as_str(), "end_scenario") {
        Some(Request::EndScenario)
    } else if same_text(kind.as_str(), "step_matches") {
        match lookup_text(members, "name_to_match") {
            Some(name_to_match) => Some(Request::StepMatches { name_to_match }),
            None => None,
        }
    } else if same_text(kind.as_str(), "invoke") {
        let id = match lookup_text(members, "id") {
            Some(id) => id,
            None => {
                return None;
            },
        };
        match lookup(members, "args") {
            Some(Json::Array(items)) => match decode_texts(items) {
                Some(args) => Some(Request::Invoke { id, args }),
                None => None,
            },
            _ => None,
        }
    } else if same_text(kind.as_str(), "snippet_text") {
        match (lookup_text(members, "step_keyword"), lookup_text(members, "step_name")) {
            (Some(step_keyword), Some(step_name)) => match lookup(members, "multiline_arg_class") {
                Some(Json::Text(class)) => Some(
                    Request::SnippetText {
                        step_keyword,
                        step_name,
                        multiline_arg_class: Some(class.clone()),
                    },
                ),
                Some(Json::Null) => Some(
                    Request::SnippetText { step_keyword, step_name, multiline_arg_class: None },
                ),
                None => Some(
                    Request::SnippetText { step_keyword, step_name, multiline_arg_class: None },
                ),
                _ => None,
            },
            _ => None,
        }
    } else {
        None
    }
}

/// The line that carries a response, with the line feed that ends it.
pub fn write_response(response: &Response) -> (line: String)
    ensures
        line@ == response_line(response@),
{
    let mut line = to_text(&encode_response(response));
    push_char(&mut line, '\n');
    line
}

/// The line that carries a request, with the line feed that ends it.
pub fn write_request(request: &Request) -> (line: String)
    ensures
        line@ == request_line(request@),
{
    let mut line = to_text(&encode_request(request));
    push_char(&mut line, '\n');
    line
}

/// The request that a line carries, if it carries one.
pub fn read_request(line: &str) -> (r: Option<Request>)
    ensures
        match r {
            Some(request) => line_request(line@) == Some(request@),
            None => line_request(line@) is None,
        },
{
    match parse(line) {
        Some(value) => decode_request(&value),
        None => None,
    }
}

/// The response that a line carries, if it carries one.
pub fn read_response(line: &str) -> (r: Option<Response>)
    ensures
        match r {
            Some(response) => line_response(line@) == Some(response@),
            None => line_response(line@) is None,
        },
{
    match parse(line) {
        Some(value) => decode_response(&value),
        None => None,
    }
}

} // verus!
