//! JSON values and their text form.
//!
//! The protocol writes every message as one JSON value on one line. The only
//! numbers it carries are byte offsets, so a number here is a non-negative
//! integer that fits in 64 bits.

use crate::text::{decimal, push_char, push_decimal};
use vstd::prelude::*;
use vstd::std_specs::iter::IteratorSpec;

verus! {

/// A JSON value. An object keeps its members in the order in which they are
/// written.
#[derive(Debug, PartialEq, Eq)]
pub enum Json {
    Null,
    Bool(bool),
    Number(u64),
    Text(String),
    Array(Vec<Json>),
    Object(Vec<(String, Json)>),
}

/// The mathematical value of a `Json`.
pub enum JsonValue {
    Null,
    Bool(bool),
    Number(u64),
    Text(Seq<char>),
    Array(Seq<JsonValue>),
    Object(Seq<(Seq<char>, JsonValue)>),
}

impl View for Json {
    type V = JsonValue;

    open spec fn view(&self) -> JsonValue {
        json_value(*self)
    }
}

/// The mathematical value of a `Json`: the same value, with its strings and
/// vectors taken as sequences.
pub open spec fn json_value(value: Json) -> JsonValue
    decreases value, 0nat,
{
    match value {
        Json::Null => JsonValue::Null,
        Json::Bool(b) => JsonValue::Bool(b),
        Json::Number(n) => JsonValue::Number(n),
        Json::Text(s) => JsonValue::Text(s@),
        Json::Array(items) => JsonValue::Array(items_view(items@)),
        Json::Object(members) => JsonValue::Object(members_view(members@)),
    }
}

/// The views of a vector of values.
pub open spec fn items_view(items: Seq<Json>) -> Seq<JsonValue>
    decreases items, 1nat,
{
    Seq::new(
        items.len(),
        |i: int|
            if 0 <= i < items.len() {
                json_value(items[i])
            } else {
                JsonValue::Null
            },
    )
}

/// The views of the members of an object.
pub open spec fn members_view(members: Seq<(String, Json)>) -> Seq<(Seq<char>, JsonValue)>
    decreases members, 1nat,
{
    Seq::new(
        members.len(),
        |i: int|
            if 0 <= i < members.len() {
                (members[i].0@, json_value(members[i].1))
            } else {
                (Seq::empty(), JsonValue::Null)
            },
    )
}

/// The character that writes the hexadecimal digit `d`, in lower case.
pub open spec fn hex_digit(d: nat) -> char {
    if d < 10 {
        (d + 48) as char
    } else {
        (d + 87) as char
    }
}

/// How one character of a string is written between the quotes: the quote
/// and the backslash behind a backslash, the line feed, the carriage return
/// and the tab by their letters, every other control character by its code
/// in four hexadecimal digits, and every other character as it is.
pub open spec fn escaped(c: char) -> Seq<char> {
    if c == '"' {
        seq!['\\', '"']
    } else if c == '\\' {
        seq!['\\', '\\']
    } else if c == '\n' {
        seq!['\\', 'n']
    } else if c == '\r' {
        seq!['\\', 'r']
    } else if c == '\t' {
        seq!['\\', 't']
    } else if c <= '\u{1f}' {
        seq!['\\', 'u', '0', '0', hex_digit(c as nat / 16), hex_digit(c as nat % 16)]
    } else {
        seq![c]
    }
}

/// The text of `text[from..]` as it stands in a string, with the closing
/// quote.
pub open spec fn quoted_tail(text: Seq<char>, from: int) -> Seq<char>
    decreases text.len() - from,
{
    if from < 0 || from >= text.len() {
        seq!['"']
    } else {
        escaped(text[from]) + quoted_tail(text, from + 1)
    }
}

/// The text of a string: its characters between quotes, each written as
/// `escaped` says.
pub open spec fn quoted(text: Seq<char>) -> Seq<char> {
    seq!['"'] + quoted_tail(text, 0)
}

/// The text of a JSON value, without any white space.
pub open spec fn json_text(value: JsonValue) -> Seq<char>
    decreases value, 0nat,
{
    match value {
        JsonValue::Null => seq!['n', 'u', 'l', 'l'],
        JsonValue::Bool(b) => if b {
            seq!['t', 'r', 'u', 'e']
        } else {
            seq!['f', 'a', 'l', 's', 'e']
        },
        JsonValue::Number(n) => decimal(n as nat),
        JsonValue::Text(text) => quoted(text),
        JsonValue::Array(items) => seq!['['] + items_tail(items, 0),
        JsonValue::Object(members) => seq!['{'] + members_tail(members, 0),
    }
}

/// The text of `items[from..]` as it stands in an array: the items with a
/// comma between each two, and the closing bracket.
pub open spec fn items_tail(items: Seq<JsonValue>, from: int) -> Seq<char>
    decreases items, items.len() - from,
{
    if from < 0 || from >= items.len() {
        seq![']']
    } else if from + 1 == items.len() {
        json_text(items[from]) + items_tail(items, from + 1)
    } else {
        json_text(items[from]) + seq![','] + items_tail(items, from + 1)
    }
}

/// The text of `members[from..]` as it stands in an object: each member as
/// its key, a colon and its value, with a comma between each two, and the
/// closing brace.
pub open spec fn members_tail(members: Seq<(Seq<char>, JsonValue)>, from: int) -> Seq<char>
    decreases members, members.len() - from,
{
    if from < 0 || from >= members.len() {
        seq!['}']
    } else if from + 1 == members.len() {
        quoted(members[from].0) + seq![':'] + json_text(members[from].1) + members_tail(
            members,
            from + 1,
        )
    } else {
        quoted(members[from].0) + seq![':'] + json_text(members[from].1) + seq![',']
            + members_tail(members, from + 1)
    }
}

/// The character that writes the hexadecimal digit `d`.
fn hex_char(d: u8) -> (c: char)
    requires
        d < 16,
    ensures
        c == hex_digit(d as nat),
{
    if d < 10 {
        (d + 48) as char
    } else {
        (d + 87) as char
    }
}

/// Appends one character of a string, written as `escaped` says.
fn write_escaped(c: char, out: &mut String)
    ensures
        final(out)@ == old(out)@ + escaped(c),
{
    if c == '"' {
        push_char(out, '\\');
        push_char(out, '"');
    } else if c == '\\' {
        push_char(out, '\\');
        push_char(out, '\\');
    } else if c == '\n' {
        push_char(out, '\\');
        push_char(out, 'n');
    } else if c == '\r' {
        push_char(out, '\\');
        push_char(out, 'r');
    } else if c == '\t' {
        push_char(out, '\\');
        push_char(out, 't');
    } else if c <= '\u{1f}' {
        let code: u8 = c as u8;
        push_char(out, '\\');
        push_char(out, 'u');
        push_char(out, '0');
        push_char(out, '0');
        push_char(out, hex_char(code / 16));
        push_char(out, hex_char(code % 16));
    } else {
        push_char(out, c);
    }
    assert(out@ =~= old(out)@ + escaped(c));
}

/// Appends the text of a string, between quotes.
pub fn write_quoted(text: &str, out: &mut String)
    ensures
        final(out)@ == old(out)@ + quoted(text@),
{
    let ghost start = out@;
    push_char(out, '"');
    for c in it: text.chars()
        invariant
            it.seq() == text@,
            start + quoted(text@) == out@ + quoted_tail(text@, it.index() as int),
    {
        let ghost before = out@;
        let ghost k = it.index() as int;
        write_escaped(c, out);
        assert(before + (escaped(c) + quoted_tail(text@, k + 1)) =~= out@ + quoted_tail(
            text@,
            k + 1,
        ));
    }
    push_char(out, '"');
    assert(out@ =~= start + quoted(text@));
}

/// Appends the text of a JSON value.
#[verifier::loop_isolation(false)]
pub fn write_json(value: &Json, out: &mut String)
    ensures
        final(out)@ == old(out)@ + json_text(value@),
    decreases value,
{
    let ghost start = out@;
    match value {
        Json::Null => {
            push_char(out, 'n');
            push_char(out, 'u');
            push_char(out, 'l');
            push_char(out, 'l');
            assert(out@ =~= start + json_text(value@));
        },
        Json::Bool(b) => {
            if *b {
                push_char(out, 't');
                push_char(out, 'r');
                push_char(out, 'u');
                push_char(out, 'e');
            } else {
                push_char(out, 'f');
                push_char(out, 'a');
                push_char(out, 'l');
                push_char(out, 's');
                push_char(out, 'e');
            }
            assert(out@ =~= start + json_text(value@));
        },
        Json::Number(n) => {
            push_decimal(out, *n);
        },
        Json::Text(text) => {
            write_quoted(text.as_str(), out);
        },
        Json::Array(items) => {
            let ghost views = items_view(items@);
            push_char(out, '[');
            let mut i: usize = 0;
            while i < items.len()
                invariant
                    i <= items.len(),
                    start + json_text(value@) == out@ + items_tail(views, i as int),
                decreases items.len() - i,
            {
                let ghost before = out@;
                write_json(&items[i], out);
                if i + 1 < items.len() {
                    push_char(out, ',');
                    assert(before + (json_text(views[i as int]) + seq![','] + items_tail(
                        views,
                        i + 1,
                    )) =~= out@ + items_tail(views, i + 1));
                } else {
                    assert(before + (json_text(views[i as int]) + items_tail(views, i + 1))
                        =~= out@ + items_tail(views, i + 1));
                }
                i += 1;
            }
            push_char(out, ']');
            assert(out@ =~= start + json_text(value@));
        },
        Json::Object(members) => {
            let ghost views = members_view(members@);
            push_char(out, '{');
            let mut i: usize = 0;
            while i < members.len()
                invariant
                    i <= members.len(),
                    start + json_text(value@) == out@ + members_tail(views, i as int),
                decreases members.len() - i,
            {
                let ghost before = out@;
                write_quoted(members[i].0.as_str(), out);
                push_char(out, ':');
                write_json(&members[i].1, out);
                if i + 1 < members.len() {
                    push_char(out, ',');
                    assert(before + (quoted(views[i as int].0) + seq![':'] + json_text(
                        views[i as int].1,
                    ) + seq![','] + members_tail(views, i + 1)) =~= out@ + members_tail(
                        views,
                        i + 1,
                    ));
                } else {
                    assert(before + (quoted(views[i as int].0) + seq![':'] + json_text(
                        views[i as int].1,
                    ) + members_tail(views, i + 1)) =~= out@ + members_tail(views, i + 1));
                }
                i += 1;
            }
            push_char(out, '}');
            assert(out@ =~= start + json_text(value@));
        },
    }
}

/// The text of a JSON value.
pub fn to_text(value: &Json) -> (text: String)
    ensures
        text@ == json_text(value@),
{
    let mut text = String::new();
    write_json(value, &mut text);
    text
}

} // verus!
