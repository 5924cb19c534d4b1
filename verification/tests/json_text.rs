use cucumber::json::to_text;
use cucumber::parse::parse;
use cucumber::Json;

fn text(s: &str) -> Json {
    Json::Text(s.to_string())
}

fn sample() -> Json {
    Json::Array(vec![
        text("success"),
        Json::Object(vec![
            ("id".to_string(), text("0")),
            ("n".to_string(), Json::Number(18446744073709551615)),
            ("flags".to_string(), Json::Array(vec![Json::Bool(true), Json::Bool(false), Json::Null])),
            ("empty".to_string(), Json::Array(vec![])),
            ("none".to_string(), Json::Object(vec![])),
        ]),
    ])
}

fn to_serde(value: &Json) -> serde_json::Value {
    match value {
        Json::Null => serde_json::Value::Null,
        Json::Bool(b) => serde_json::Value::Bool(*b),
        Json::Number(n) => serde_json::Value::Number(serde_json::Number::from(*n)),
        Json::Text(s) => serde_json::Value::String(s.clone()),
        Json::Array(items) => serde_json::Value::Array(items.iter().map(to_serde).collect()),
        Json::Object(members) => {
            let mut map = serde_json::Map::new();
            for (key, value) in members {
                map.insert(key.clone(), to_serde(value));
            }
            serde_json::Value::Object(map)
        }
    }
}

#[test]
fn scalars_are_written() {
    assert_eq!(to_text(&Json::Null), "null");
    assert_eq!(to_text(&Json::Bool(true)), "true");
    assert_eq!(to_text(&Json::Bool(false)), "false");
    assert_eq!(to_text(&Json::Number(0)), "0");
    assert_eq!(to_text(&Json::Number(9078)), "9078");
    assert_eq!(to_text(&text("")), "\"\"");
    assert_eq!(to_text(&text("cukes")), "\"cukes\"");
}

#[test]
fn arrays_and_objects_are_written_without_space() {
    assert_eq!(to_text(&Json::Array(vec![])), "[]");
    assert_eq!(to_text(&Json::Object(vec![])), "{}");
    assert_eq!(to_text(&Json::Array(vec![Json::Null])), "[null]");
    assert_eq!(
        to_text(&sample()),
        "[\"success\",{\"id\":\"0\",\"n\":18446744073709551615,\"flags\":[true,false,null],\"empty\":[],\"none\":{}}]"
    );
}

#[test]
fn strings_are_escaped() {
    assert_eq!(to_text(&text("a\"b")), "\"a\\\"b\"");
    assert_eq!(to_text(&text("a\\b")), "\"a\\\\b\"");
    assert_eq!(to_text(&text("a\nb\rc\td")), "\"a\\nb\\rc\\td\"");
    assert_eq!(to_text(&text("\u{0}\u{8}\u{c}\u{1f}")), "\"\\u0000\\u0008\\u000c\\u001f\"");
    assert_eq!(to_text(&text("/ é \u{7f} 😀")), "\"/ é \u{7f} 😀\"");
}

#[test]
fn scalars_are_read() {
    assert_eq!(parse("null"), Some(Json::Null));
    assert_eq!(parse("true"), Some(Json::Bool(true)));
    assert_eq!(parse("false"), Some(Json::Bool(false)));
    assert_eq!(parse("0"), Some(Json::Number(0)));
    assert_eq!(parse("42"), Some(Json::Number(42)));
    assert_eq!(parse("\"\""), Some(text("")));
    assert_eq!(parse("\"a b\""), Some(text("a b")));
}

#[test]
fn space_is_passed_over() {
    assert_eq!(parse(" \t\r\n null \n"), Some(Json::Null));
    assert_eq!(
        parse(" [ 1 , \"a\" , [ ] , { } , { \"k\" : [ true ] } ] \r\n"),
        Some(Json::Array(vec![
            Json::Number(1),
            text("a"),
            Json::Array(vec![]),
            Json::Object(vec![]),
            Json::Object(vec![("k".to_string(), Json::Array(vec![Json::Bool(true)]))]),
        ]))
    );
}

#[test]
fn escapes_are_read() {
    assert_eq!(parse("\"\\\" \\\\ \\/ \\b \\f \\n \\r \\t\""), Some(text("\" \\ / \u{8} \u{c} \n \r \t")));
    assert_eq!(parse("\"\\u0041\\u00e9\\u00E9\\u20ac\""), Some(text("Aéé€")));
    assert_eq!(parse("\"\\ud83d\\ude00\""), Some(text("😀")));
    assert_eq!(parse("\"\\uD83D\\uDE00!\""), Some(text("😀!")));
}

#[test]
fn broken_escapes_are_not_read() {
    assert_eq!(parse("\"\\x\""), None);
    assert_eq!(parse("\"\\u12\""), None);
    assert_eq!(parse("\"\\u12g4\""), None);
    assert_eq!(parse("\"\\ud83d\""), None);
    assert_eq!(parse("\"\\ud83dx\""), None);
    assert_eq!(parse("\"\\ud83d\\u0041\""), None);
    assert_eq!(parse("\"\\ude00\""), None);
    assert_eq!(parse("\"\\"), None);
}

#[test]
fn strings_hold_no_raw_control_character() {
    assert_eq!(parse("\"a\nb\""), None);
    assert_eq!(parse("\"a\tb\""), None);
    assert_eq!(parse("\"a\u{0}b\""), None);
    assert_eq!(parse("\"a\u{7f}b\""), Some(text("a\u{7f}b")));
}

#[test]
fn numbers_are_plain_numerals() {
    assert_eq!(parse("18446744073709551615"), Some(Json::Number(u64::MAX)));
    assert_eq!(parse("18446744073709551616"), None);
    assert_eq!(parse("01"), None);
    assert_eq!(parse("-1"), None);
    assert_eq!(parse("1.5"), None);
    assert_eq!(parse("1e3"), None);
    assert_eq!(parse("[1.5]"), None);
    assert_eq!(parse("[10,2]"), Some(Json::Array(vec![Json::Number(10), Json::Number(2)])));
}

#[test]
fn what_is_no_json_is_not_read() {
    for bad in [
        "", " ", "nul", "nulll", "tru", "falsy", "[", "]", "[1,]", "[,1]", "[1 2]", "{", "}",
        "{\"a\"}", "{\"a\":}", "{\"a\":1,}", "{a:1}", "{\"a\":1 \"b\":2}", "\"abc", "abc\"",
        "null null", "[null]]", "'a'", "[1],",
    ] {
        assert_eq!(parse(bad), None, "{}", bad);
    }
}

#[test]
fn nesting_is_bounded() {
    let deep = |n: usize| format!("{}{}", "[".repeat(n), "]".repeat(n));
    assert!(parse(&deep(1)).is_some());
    assert!(parse(&deep(64)).is_some());
    assert_eq!(parse(&deep(65)), None);
    assert_eq!(parse(&deep(10000)), None);
    let objects = |n: usize| format!("{}null{}", "{\"a\":".repeat(n), "}".repeat(n));
    assert!(parse(&objects(64)).is_some());
    assert_eq!(parse(&objects(65)), None);
}

#[test]
fn members_keep_their_order_and_may_repeat() {
    assert_eq!(
        parse("{\"b\":1,\"a\":2,\"b\":3}"),
        Some(Json::Object(vec![
            ("b".to_string(), Json::Number(1)),
            ("a".to_string(), Json::Number(2)),
            ("b".to_string(), Json::Number(3)),
        ]))
    );
}

#[test]
fn what_is_written_is_read_back() {
    let values = vec![
        Json::Null,
        Json::Bool(true),
        Json::Number(0),
        Json::Number(u64::MAX),
        text(""),
        text("a\"b\\c\nd\re\tf\u{0}\u{1f}\u{7f} é € 😀 /"),
        Json::Array(vec![]),
        Json::Object(vec![]),
        sample(),
        Json::Array(vec![sample(), sample()]),
    ];
    for value in values {
        let written = to_text(&value);
        assert_eq!(parse(&written), Some(copy_of(&value)), "{}", written);
        let with_line_end = format!("{}\n", written);
        assert_eq!(parse(&with_line_end), Some(copy_of(&value)));
    }
}

fn copy_of(value: &Json) -> Json {
    match value {
        Json::Null => Json::Null,
        Json::Bool(b) => Json::Bool(*b),
        Json::Number(n) => Json::Number(*n),
        Json::Text(s) => Json::Text(s.clone()),
        Json::Array(items) => Json::Array(items.iter().map(copy_of).collect()),
        Json::Object(members) => {
            Json::Object(members.iter().map(|(k, v)| (k.clone(), copy_of(v))).collect())
        }
    }
}

#[test]
fn written_text_is_json_to_another_reader() {
    let values = vec![
        sample(),
        text("a\"b\\c\nd\re\tf\u{0}\u{8}\u{c}\u{1f}\u{7f} é € 😀 /"),
        Json::Array(vec![Json::Number(7), Json::Null, Json::Bool(false)]),
    ];
    for value in values {
        let read: serde_json::Value = serde_json::from_str(&to_text(&value)).unwrap();
        assert_eq!(read, to_serde(&value));
    }
}

#[test]
fn text_of_another_writer_is_read() {
    let values = vec![
        sample(),
        text("a\"b\\c\nd\re\tf\u{0}\u{8}\u{c}\u{1f}\u{7f} é € 😀 /"),
        Json::Array(vec![Json::Number(7), Json::Null, Json::Bool(false)]),
    ];
    for value in values {
        let written = serde_json::to_string(&to_serde(&value)).unwrap();
        let read = parse(&written).unwrap();
        assert_eq!(to_serde(&read), to_serde(&value));
        let pretty = serde_json::to_string_pretty(&to_serde(&value)).unwrap();
        let read = parse(&pretty).unwrap();
        assert_eq!(to_serde(&read), to_serde(&value));
    }
}
