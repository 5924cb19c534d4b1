//! Nothing is lost on the wire: a message that is written, as a JSON value
//! or as a line, is read back as the message it was written from.

use crate::json::{json_text, JsonValue};
use crate::json_laws::{lemma_text_round_trip, lemma_within_deeper, within_depth};
use crate::parse::{is_space, MAX_DEPTH};
use crate::protocol::{RequestView, ResponseView};
use crate::registry::{MatchArgView, PendingMatchView};
use crate::wire::{
    arg_json, field_from, json_arg, json_args, json_match, json_matches, json_request,
    json_response, json_texts, line_request, line_response, match_json, request_json,
    request_line, response_json, response_line,
};
use vstd::prelude::*;

verus! {

/// The names of the protocol, letter by letter.
proof fn lemma_names()
    ensures
        "success"@.len() == 7,
        "fail"@.len() == 4,
        "pending"@.len() == 7,
        "success"@[0] == 's',
        "pending"@[0] == 'p',
        "val"@.len() == 3,
        "pos"@.len() == 3,
        "val"@[0] == 'v',
        "pos"@[0] == 'p',
        "id"@.len() == 2,
        "args"@.len() == 4,
        "message"@.len() == 7,
        "exception"@.len() == 9,
        "invoke_result_text"@.len() == 18,
        "snippet"@.len() == 7,
        "begin_scenario"@.len() == 14,
        "end_scenario"@.len() == 12,
        "step_matches"@.len() == 12,
        "invoke"@.len() == 6,
        "snippet_text"@.len() == 12,
        "end_scenario"@[0] == 'e',
        "step_matches"@[0] == 's',
        "snippet_text"@[0] == 's',
        "snippet_text"@[1] == 'n',
        "step_matches"@[1] == 't',
        "name_to_match"@.len() == 13,
        "step_keyword"@.len() == 12,
        "step_name"@.len() == 9,
        "multiline_arg_class"@.len() == 19,
{
    reveal_strlit("success");
    reveal_strlit("fail");
    reveal_strlit("pending");
    reveal_strlit("val");
    reveal_strlit("pos");
    reveal_strlit("id");
    reveal_strlit("args");
    reveal_strlit("message");
    reveal_strlit("exception");
    reveal_strlit("invoke_result_text");
    reveal_strlit("snippet");
    reveal_strlit("begin_scenario");
    reveal_strlit("end_scenario");
    reveal_strlit("step_matches");
    reveal_strlit("invoke");
    reveal_strlit("snippet_text");
    reveal_strlit("name_to_match");
    reveal_strlit("step_keyword");
    reveal_strlit("step_name");
    reveal_strlit("multiline_arg_class");
}

/// An argument that is written as a JSON value is read back.
pub proof fn lemma_arg_round_trip(arg: MatchArgView)
    ensures
        json_arg(arg_json(arg)) == Some(arg),
        within_depth(arg_json(arg), 1),
{
    lemma_names();
    reveal_with_fuel(field_from, 3);
    let members = arg_json(arg)->Object_0;
    assert(members[0].0 == "val"@);
    assert(members[1].0 == "pos"@);
    assert forall|i: int| 0 <= i < members.len() implies within_depth(
        (#[trigger] members[i]).1,
        0,
    ) by {
        if i == 0 {
        } else {
            assert(i == 1);
        }
    }
}

/// The arguments of a match that are written as JSON values are read back.
pub proof fn lemma_args_round_trip(args: Seq<MatchArgView>)
    ensures
        json_args(args.map_values(|a: MatchArgView| arg_json(a))) == Some(args),
        within_depth(JsonValue::Array(args.map_values(|a: MatchArgView| arg_json(a))), 2),
{
    let items = args.map_values(|a: MatchArgView| arg_json(a));
    assert forall|i: int| 0 <= i < items.len() implies json_arg(#[trigger] items[i]) == Some(
        args[i],
    ) && within_depth(items[i], 1) by {
        lemma_arg_round_trip(args[i]);
    }
    assert(items.map_values(|v: JsonValue| json_arg(v).unwrap()) =~= args);
}

/// A match that is written as a JSON value is read back.
pub proof fn lemma_match_round_trip(found: PendingMatchView)
    ensures
        json_match(match_json(found)) == Some(found),
        within_depth(match_json(found), 3),
{
    lemma_names();
    lemma_args_round_trip(found.args);
    reveal_with_fuel(field_from, 3);
    let members = match_json(found)->Object_0;
    let items = found.args.map_values(|a: MatchArgView| arg_json(a));
    assert(members[0].0 == "id"@);
    assert(members[1].0 == "args"@);
    assert(members[1].1 == JsonValue::Array(items));
    assert forall|i: int| 0 <= i < members.len() implies within_depth(
        (#[trigger] members[i]).1,
        2,
    ) by {
        if i == 0 {
        } else {
            assert(i == 1);
        }
    }
}

/// The matches that are written as JSON values are read back.
pub proof fn lemma_matches_round_trip(found: Seq<PendingMatchView>)
    ensures
        json_matches(found.map_values(|m: PendingMatchView| match_json(m))) == Some(found),
        within_depth(JsonValue::Array(found.map_values(|m: PendingMatchView| match_json(m))), 4),
{
    let items = found.map_values(|m: PendingMatchView| match_json(m));
    assert forall|i: int| 0 <= i < items.len() implies json_match(#[trigger] items[i]) == Some(
        found[i],
    ) && within_depth(items[i], 3) by {
        lemma_match_round_trip(found[i]);
    }
    assert(items.map_values(|v: JsonValue| json_match(v).unwrap()) =~= found);
}

/// Every response that is written as a JSON value is read back as the same
/// response: the empty list of matches, the success without a payload and
/// every string, whatever it holds, are kept as they are.
pub proof fn lemma_response_json_round_trip(response: ResponseView)
    ensures
        json_response(response_json(response)) == Some(response),
        within_depth(response_json(response), MAX_DEPTH as nat),
{
    lemma_names();
    reveal_with_fuel(field_from, 3);
    let value = response_json(response);
    let items = value->Array_0;
    let payload = items[1];
    assert(items.len() == 2);
    match response {
        ResponseView::Success => {},
        ResponseView::StepMatches(found) => {
            lemma_matches_round_trip(found);
        },
        ResponseView::InvokeResult { text } => {
            let members = payload->Object_0;
            assert(members[0].0 == "invoke_result_text"@);
            assert(within_depth(members[0].1, 3));
            assert(within_depth(payload, 4));
        },
        ResponseView::Snippet { snippet } => {
            let members = payload->Object_0;
            assert(members[0].0 == "snippet"@);
            assert(within_depth(members[0].1, 3));
            assert(within_depth(payload, 4));
        },
        ResponseView::Fail { message, exception } => {
            let members = payload->Object_0;
            assert(members[0].0 == "message"@);
            assert(members[1].0 == "exception"@);
            assert forall|i: int| 0 <= i < members.len() implies within_depth(
                (#[trigger] members[i]).1,
                3,
            ) by {
                if i == 0 {
                } else {
                    assert(i == 1);
                }
            }
            assert(within_depth(payload, 4));
        },
        ResponseView::Pending { message } => {
            let members = payload->Object_0;
            assert(members[0].0 == "message"@);
            assert(within_depth(members[0].1, 3));
            assert(within_depth(payload, 4));
        },
    }
    assert(within_depth(payload, 4));
    assert forall|i: int| 0 <= i < items.len() implies within_depth(#[trigger] items[i], 4) by {
        if i == 0 {
        } else {
            assert(i == 1);
        }
    }
    assert(within_depth(value, 5));
    lemma_within_deeper(value, 5, MAX_DEPTH as nat);
}

/// Every request that is written as a JSON value is read back as the same
/// request.
pub proof fn lemma_request_json_round_trip(request: RequestView)
    ensures
        json_request(request_json(request)) == Some(request),
        within_depth(request_json(request), MAX_DEPTH as nat),
{
    lemma_names();
    reveal_with_fuel(field_from, 4);
    let value = request_json(request);
    let items = value->Array_0;
    let payload = items[1];
    let members = payload->Object_0;
    assert(items.len() == 2);
    match request {
        RequestView::BeginScenario => {},
        RequestView::EndScenario => {},
        RequestView::StepMatches { name_to_match } => {
            assert(members[0].0 == "name_to_match"@);
            assert(within_depth(members[0].1, 3));
        },
        RequestView::Invoke { id, args } => {
            let texts = args.map_values(|a: Seq<char>| JsonValue::Text(a));
            assert(members[0].0 == "id"@);
            assert(members[1].0 == "args"@);
            assert(members[1].1 == JsonValue::Array(texts));
            assert forall|i: int| 0 <= i < texts.len() implies (#[trigger] texts[i]) is Text
                && within_depth(texts[i], 2) by {}
            assert(texts.map_values(|v: JsonValue| v->Text_0) =~= args);
            assert(json_texts(texts) == Some(args));
            assert(within_depth(JsonValue::Array(texts), 3));
            assert forall|i: int| 0 <= i < members.len() implies within_depth(
                (#[trigger] members[i]).1,
                3,
            ) by {
                if i == 0 {
                } else {
                    assert(i == 1);
                }
            }
        },
        RequestView::SnippetText { step_keyword, step_name, multiline_arg_class } => {
            assert(members[0].0 == "step_keyword"@);
            assert(members[1].0 == "step_name"@);
            assert(members[2].0 == "multiline_arg_class"@);
            assert forall|i: int| 0 <= i < members.len() implies within_depth(
                (#[trigger] members[i]).1,
                3,
            ) by {
                if i == 0 {
                } else if i == 1 {
                } else {
                    assert(i == 2);
                }
            }
        },
    }
    assert(within_depth(payload, 4));
    assert forall|i: int| 0 <= i < items.len() implies within_depth(#[trigger] items[i], 4) by {
        if i == 0 {
        } else {
            assert(i == 1);
        }
    }
    assert(within_depth(value, 5));
    lemma_within_deeper(value, 5, MAX_DEPTH as nat);
}

/// Every response that is written as a line is read back from the line as
/// the same response.
pub proof fn lemma_response_line_round_trip(response: ResponseView)
    ensures
        line_response(response_line(response)) == Some(response),
{
    lemma_response_json_round_trip(response);
    let end = seq!['\n'];
    assert forall|i: int| 0 <= i < end.len() implies is_space(#[trigger] end[i]) by {}
    lemma_text_round_trip(response_json(response), end);
}

/// Every request that is written as a line is read back from the line as
/// the same request.
pub proof fn lemma_request_line_round_trip(request: RequestView)
    ensures
        line_request(request_line(request)) == Some(request),
{
    lemma_request_json_round_trip(request);
    let end = seq!['\n'];
    assert forall|i: int| 0 <= i < end.len() implies is_space(#[trigger] end[i]) by {}
    lemma_text_round_trip(request_json(request), end);
}

} // verus!
