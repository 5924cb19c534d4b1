use cucumber::wire::{
    decode_request, decode_response, encode_request, encode_response, read_request,
    read_response, write_request, write_response,
};
use cucumber::{Json, MatchArg, PendingMatch, Request, Response};

fn text(s: &str) -> Json {
    Json::Text(s.to_string())
}

fn responses() -> Vec<Response> {
    vec![
        Response::Success,
        Response::StepMatches(vec![]),
        Response::StepMatches(vec![PendingMatch { id: "0".to_string(), args: vec![] }]),
        Response::StepMatches(vec![
            PendingMatch {
                id: "3".to_string(),
                args: vec![
                    MatchArg { val: "5".to_string(), pos: 7 },
                    MatchArg { val: String::new(), pos: 0 },
                    MatchArg { val: "a \"b\" \\ \n é 😀".to_string(), pos: usize::MAX },
                ],
            },
            PendingMatch { id: "12".to_string(), args: vec![MatchArg { val: "x".to_string(), pos: 1 }] },
        ]),
        Response::InvokeResult { text: String::new() },
        Response::InvokeResult { text: "done\tin 3s".to_string() },
        Response::Snippet { snippet: "// Given x\nregistry.register(\"^x$\")\n".to_string() },
        Response::Fail { message: String::new(), exception: String::new() },
        Response::Fail { message: "it broke: \u{1}".to_string(), exception: "Broken".to_string() },
        Response::Pending { message: "TODO".to_string() },
    ]
}

fn requests() -> Vec<Request> {
    vec![
        Request::BeginScenario,
        Request::EndScenario,
        Request::StepMatches { name_to_match: "I have 5 cukes".to_string() },
        Request::StepMatches { name_to_match: String::new() },
        Request::Invoke { id: "0".to_string(), args: vec![] },
        Request::Invoke { id: "bogus".to_string(), args: vec!["5".to_string(), "é \"q\"".to_string()] },
        Request::SnippetText {
            step_keyword: "Given".to_string(),
            step_name: "I have 5 cukes".to_string(),
            multiline_arg_class: None,
        },
        Request::SnippetText {
            step_keyword: "When".to_string(),
            step_name: "x".to_string(),
            multiline_arg_class: Some("Cucumber::Ast::Table".to_string()),
        },
    ]
}

#[test]
fn responses_have_their_lines() {
    assert_eq!(write_response(&Response::Success), "[\"success\",null]\n");
    assert_eq!(write_response(&Response::StepMatches(vec![])), "[\"success\",[]]\n");
    assert_eq!(
        write_response(&Response::StepMatches(vec![PendingMatch {
            id: "0".to_string(),
            args: vec![MatchArg { val: "5".to_string(), pos: 7 }],
        }])),
        "[\"success\",[{\"id\":\"0\",\"args\":[{\"val\":\"5\",\"pos\":7}]}]]\n"
    );
    assert_eq!(
        write_response(&Response::InvokeResult { text: "ok".to_string() }),
        "[\"success\",{\"invoke_result_text\":\"ok\"}]\n"
    );
    assert_eq!(
        write_response(&Response::Snippet { snippet: "a\nb".to_string() }),
        "[\"success\",{\"snippet\":\"a\\nb\"}]\n"
    );
    assert_eq!(
        write_response(&Response::Fail { message: "m".to_string(), exception: "E".to_string() }),
        "[\"fail\",{\"message\":\"m\",\"exception\":\"E\"}]\n"
    );
    assert_eq!(
        write_response(&Response::Pending { message: "TODO".to_string() }),
        "[\"pending\",{\"message\":\"TODO\"}]\n"
    );
}

#[test]
fn requests_have_their_lines() {
    assert_eq!(write_request(&Request::BeginScenario), "[\"begin_scenario\",{}]\n");
    assert_eq!(write_request(&Request::EndScenario), "[\"end_scenario\",{}]\n");
    assert_eq!(
        write_request(&Request::StepMatches { name_to_match: "I have 5 cukes".to_string() }),
        "[\"step_matches\",{\"name_to_match\":\"I have 5 cukes\"}]\n"
    );
    assert_eq!(
        write_request(&Request::Invoke { id: "0".to_string(), args: vec!["5".to_string()] }),
        "[\"invoke\",{\"id\":\"0\",\"args\":[\"5\"]}]\n"
    );
    assert_eq!(
        write_request(&Request::SnippetText {
            step_keyword: "Given".to_string(),
            step_name: "x".to_string(),
            multiline_arg_class: None,
        }),
        "[\"snippet_text\",{\"step_keyword\":\"Given\",\"step_name\":\"x\",\"multiline_arg_class\":null}]\n"
    );
}

#[test]
fn every_response_survives_the_wire() {
    for response in responses() {
        assert_eq!(decode_response(&encode_response(&response)), Some(response.clone()));
        let line = write_response(&response);
        assert!(line.ends_with('\n'));
        assert!(!line[..line.len() - 1].contains('\n'));
        assert_eq!(read_response(&line), Some(response.clone()));
        assert_eq!(read_response(line.trim_end()), Some(response));
    }
}

#[test]
fn every_request_survives_the_wire() {
    for request in requests() {
        assert_eq!(decode_request(&encode_request(&request)), Some(request.clone()));
        let line = write_request(&request);
        assert!(line.ends_with('\n'));
        assert_eq!(read_request(&line), Some(request));
    }
}

#[test]
fn requests_are_read_from_lines() {
    assert_eq!(read_request("[\"begin_scenario\", {}]\n"), Some(Request::BeginScenario));
    assert_eq!(
        read_request("[\"begin_scenario\", {\"tags\": [\"wip\", \"slow\"]}]\r\n"),
        Some(Request::BeginScenario)
    );
    assert_eq!(read_request("[\"end_scenario\",{}]"), Some(Request::EndScenario));
    assert_eq!(
        read_request("[\"step_matches\", {\"name_to_match\": \"I have 5 cukes\"}]\n"),
        Some(Request::StepMatches { name_to_match: "I have 5 cukes".to_string() })
    );
    assert_eq!(
        read_request("[\"invoke\", {\"id\": \"bogus\", \"args\": []}]\n"),
        Some(Request::Invoke { id: "bogus".to_string(), args: vec![] })
    );
    assert_eq!(
        read_request("[\"invoke\", {\"args\": [\"5\", \"x\"], \"id\": \"0\"}]\n"),
        Some(Request::Invoke { id: "0".to_string(), args: vec!["5".to_string(), "x".to_string()] })
    );
    assert_eq!(
        read_request("[\"snippet_text\", {\"step_keyword\": \"Given\", \"step_name\": \"x\", \"multiline_arg_class\": \"\"}]\n"),
        Some(Request::SnippetText {
            step_keyword: "Given".to_string(),
            step_name: "x".to_string(),
            multiline_arg_class: Some(String::new()),
        })
    );
    assert_eq!(
        read_request("[\"snippet_text\", {\"step_keyword\": \"Given\", \"step_name\": \"x\"}]\n"),
        Some(Request::SnippetText {
            step_keyword: "Given".to_string(),
            step_name: "x".to_string(),
            multiline_arg_class: None,
        })
    );
}

#[test]
fn what_is_no_request_is_not_read() {
    for bad in [
        "",
        "\n",
        "not json",
        "[\"begin_scenario\", {}",
        "[\"begin_scenario\"]",
        "[\"begin_scenario\", {}, {}]",
        "[\"begin_scenario\", null]",
        "[\"begin_scenario\", []]",
        "[\"launch_missiles\", {}]",
        "[\"Begin_Scenario\", {}]",
        "[7, {}]",
        "{\"begin_scenario\": {}}",
        "\"begin_scenario\"",
        "[\"step_matches\", {}]",
        "[\"step_matches\", {\"name_to_match\": 5}]",
        "[\"step_matches\", [\"I have 5 cukes\"]]",
        "[\"invoke\", {\"id\": \"0\"}]",
        "[\"invoke\", {\"args\": []}]",
        "[\"invoke\", {\"id\": 0, \"args\": []}]",
        "[\"invoke\", {\"id\": \"0\", \"args\": [5]}]",
        "[\"invoke\", {\"id\": \"0\", \"args\": [\"5\", null]}]",
        "[\"invoke\", {\"id\": \"0\", \"args\": \"5\"}]",
        "[\"snippet_text\", {\"step_keyword\": \"Given\"}]",
        "[\"snippet_text\", {\"step_keyword\": \"Given\", \"step_name\": \"x\", \"multiline_arg_class\": 1}]",
        "[\"begin_scenario\", {}] [\"end_scenario\", {}]",
    ] {
        assert_eq!(read_request(bad), None, "{}", bad);
    }
}

#[test]
fn what_is_no_response_is_not_read() {
    for bad in [
        "",
        "[\"success\"]",
        "[\"success\", 1]",
        "[\"success\", \"ok\"]",
        "[\"success\", {}]",
        "[\"success\", {\"invoke_result_text\": null}]",
        "[\"success\", [{\"id\": \"0\"}]]",
        "[\"success\", [{\"id\": \"0\", \"args\": [{\"val\": \"5\"}]}]]",
        "[\"success\", [{\"id\": \"0\", \"args\": [{\"val\": 5, \"pos\": 7}]}]]",
        "[\"success\", [{\"id\": \"0\", \"args\": [{\"val\": \"5\", \"pos\": \"7\"}]}]]",
        "[\"fail\", {\"message\": \"m\"}]",
        "[\"fail\", null]",
        "[\"pending\", {}]",
        "[\"pending\", null]",
        "[\"maybe\", null]",
    ] {
        assert_eq!(read_response(bad), None, "{}", bad);
    }
}

#[test]
fn the_first_member_of_a_name_counts_and_others_are_passed_over() {
    let value = Json::Array(vec![
        text("fail"),
        Json::Object(vec![
            ("backtrace".to_string(), Json::Array(vec![])),
            ("message".to_string(), text("first")),
            ("exception".to_string(), text("E")),
            ("message".to_string(), text("second")),
        ]),
    ]);
    assert_eq!(
        decode_response(&value),
        Some(Response::Fail { message: "first".to_string(), exception: "E".to_string() })
    );
}

#[test]
fn a_success_with_both_texts_is_an_invoke_result() {
    assert_eq!(
        read_response("[\"success\", {\"snippet\": \"s\", \"invoke_result_text\": \"t\"}]"),
        Some(Response::InvokeResult { text: "t".to_string() })
    );
}
