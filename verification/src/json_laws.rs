//! What is written as JSON text is read back as the value it was written
//! from.

use crate::json::{escaped, hex_digit, items_tail, json_text, members_tail, quoted, quoted_tail, JsonValue};
use crate::parse::{
    digits_end, has_at, hex4, hex_value, is_space, parse_items, parse_json, parse_members,
    parse_number, parse_value, skip_space, string_body, unescaped, MAX_DEPTH,
};
use crate::text::{decimal, is_digit, lemma_decimal_is_numeral, lemma_numeral_round_trip};
use vstd::prelude::*;

verus! {

/// Whether arrays and objects nest at most `depth` deep in `value`.
pub open spec fn within_depth(value: JsonValue, depth: nat) -> bool
    decreases value,
{
    match value {
        JsonValue::Array(items) => depth >= 1 && forall|i: int|
            0 <= i < items.len() ==> within_depth(#[trigger] items[i], (depth - 1) as nat),
        JsonValue::Object(members) => depth >= 1 && forall|i: int|
            0 <= i < members.len() ==> within_depth((#[trigger] members[i]).1, (depth - 1) as nat),
        _ => true,
    }
}

/// Whether a value can start with `c`.
pub open spec fn opens_value(c: char) -> bool {
    c == 'n' || c == 't' || c == 'f' || c == '"' || is_digit(c) || c == '[' || c == '{'
}

/// A value that nests at most `depth` deep nests at most `more` deep too.
pub proof fn lemma_within_deeper(value: JsonValue, depth: nat, more: nat)
    requires
        within_depth(value, depth),
        depth <= more,
    ensures
        within_depth(value, more),
    decreases value,
{
    match value {
        JsonValue::Array(items) => {
            assert forall|i: int| 0 <= i < items.len() implies within_depth(
                #[trigger] items[i],
                (more - 1) as nat,
            ) by {
                lemma_within_deeper(items[i], (depth - 1) as nat, (more - 1) as nat);
            }
        },
        JsonValue::Object(members) => {
            assert forall|i: int| 0 <= i < members.len() implies within_depth(
                (#[trigger] members[i]).1,
                (more - 1) as nat,
            ) by {
                lemma_within_deeper(members[i].1, (depth - 1) as nat, (more - 1) as nat);
            }
        },
        _ => {},
    }
}

/// A text that holds two words one behind the other holds each of them.
proof fn lemma_has_at_parts(s: Seq<char>, pos: int, a: Seq<char>, b: Seq<char>)
    requires
        has_at(s, pos, a + b),
    ensures
        has_at(s, pos, a),
        has_at(s, pos + a.len(), b),
{
    let whole = s.subrange(pos, pos + (a + b).len());
    assert(s.subrange(pos, pos + a.len()) =~= whole.subrange(0, a.len() as int));
    assert(whole.subrange(0, a.len() as int) =~= a);
    assert(s.subrange(pos + a.len(), pos + a.len() + b.len()) =~= whole.subrange(
        a.len() as int,
        (a + b).len() as int,
    ));
    assert(whole.subrange(a.len() as int, (a + b).len() as int) =~= b);
}

/// A text that holds a word holds each of its characters.
proof fn lemma_has_at_char(s: Seq<char>, pos: int, word: Seq<char>, i: int)
    requires
        has_at(s, pos, word),
        0 <= i < word.len(),
    ensures
        s[pos + i] == word[i],
        pos + i < s.len(),
{
    assert(s.subrange(pos, pos + word.len())[i] == s[pos + i]);
}

/// The text of a value is not empty and starts as a value starts.
pub proof fn lemma_text_opens(value: JsonValue)
    ensures
        json_text(value).len() >= 1,
        opens_value(json_text(value)[0]),
{
    match value {
        JsonValue::Number(n) => {
            lemma_decimal_is_numeral(n as nat);
            assert(is_digit(decimal(n as nat)[0]));
        },
        JsonValue::Bool(b) => {},
        _ => {},
    }
}

/// The written rest of an array is not empty.
proof fn lemma_items_tail_len(items: Seq<JsonValue>, from: int)
    ensures
        items_tail(items, from).len() >= 1,
{
    if 0 <= from < items.len() {
        lemma_text_opens(items[from]);
    }
}

/// The written rest of an array that has an item left starts as a value
/// starts, and is longer than the text of that item.
proof fn lemma_items_tail_opens(items: Seq<JsonValue>, from: int)
    requires
        0 <= from < items.len(),
    ensures
        items_tail(items, from).len() > json_text(items[from]).len(),
        opens_value(items_tail(items, from)[0]),
{
    lemma_text_opens(items[from]);
    lemma_items_tail_len(items, from + 1);
}

/// A written string starts with a quote.
proof fn lemma_quoted_opens(text: Seq<char>)
    ensures
        quoted(text).len() >= 2,
        quoted(text)[0] == '"',
{
}

/// The written rest of an object is not empty.
proof fn lemma_members_tail_len(members: Seq<(Seq<char>, JsonValue)>, from: int)
    ensures
        members_tail(members, from).len() >= 1,
{
    if 0 <= from < members.len() {
        lemma_quoted_opens(members[from].0);
    }
}

/// The written rest of an object that has a member left starts with the
/// quote of its key.
proof fn lemma_members_tail_opens(members: Seq<(Seq<char>, JsonValue)>, from: int)
    requires
        0 <= from < members.len(),
    ensures
        members_tail(members, from).len() >= 1,
        members_tail(members, from)[0] == '"',
{
    lemma_quoted_opens(members[from].0);
}

/// A hexadecimal digit is read back as the number it was written from.
proof fn lemma_hex_digit_value(d: nat)
    requires
        d < 16,
    ensures
        hex_value(hex_digit(d)) == Some(d),
{
}

/// A character that is written behind a backslash is read back from there.
proof fn lemma_escape_read(c: char, s: Seq<char>, pos: int)
    requires
        has_at(s, pos, escaped(c)),
        escaped(c).len() >= 2,
    ensures
        s[pos] == '\\',
        pos + escaped(c).len() <= s.len(),
        unescaped(s, pos + 1) == Some((c, pos + escaped(c).len())),
{
    let e = escaped(c);
    lemma_has_at_char(s, pos, e, 0);
    lemma_has_at_char(s, pos, e, 1);
    if c == '"' || c == '\\' || c == '\n' || c == '\r' || c == '\t' {
    } else {
        lemma_has_at_char(s, pos, e, 2);
        lemma_has_at_char(s, pos, e, 3);
        lemma_has_at_char(s, pos, e, 4);
        lemma_has_at_char(s, pos, e, 5);
        let code = c as nat;
        lemma_hex_digit_value(code / 16);
        lemma_hex_digit_value(code % 16);
        assert(hex_value('0') == Some(0nat));
        assert(hex4(s, pos + 2) == Some(code));
        assert(code as char == c);
    }
}

/// The rest of a written string is read back as the rest of the string.
proof fn lemma_string_body(text: Seq<char>, from: int, s: Seq<char>, pos: int, acc: Seq<char>)
    requires
        0 <= from <= text.len(),
        has_at(s, pos, quoted_tail(text, from)),
    ensures
        string_body(s, pos, acc) == Some(
            (acc + text.subrange(from, text.len() as int), pos + quoted_tail(text, from).len()),
        ),
    decreases text.len() - from,
{
    let tail = quoted_tail(text, from);
    if from == text.len() {
        lemma_has_at_char(s, pos, tail, 0);
        assert(acc + text.subrange(from, text.len() as int) =~= acc);
    } else {
        let c = text[from];
        let e = escaped(c);
        let rest = quoted_tail(text, from + 1);
        lemma_has_at_parts(s, pos, e, rest);
        lemma_has_at_char(s, pos, e, 0);
        let next = pos + e.len();
        lemma_string_body(text, from + 1, s, next, acc.push(c));
        assert(acc.push(c) + text.subrange(from + 1, text.len() as int) =~= acc + text.subrange(
            from,
            text.len() as int,
        ));
        if e.len() >= 2 {
            lemma_escape_read(c, s, pos);
        } else {
            assert(s[pos] == c);
        }
    }
}

/// A run of digits ends where the first character that is no digit stands.
proof fn lemma_digits_end(s: Seq<char>, pos: int, count: int)
    requires
        0 <= pos,
        0 <= count,
        pos + count <= s.len(),
        forall|i: int| pos <= i < pos + count ==> is_digit(#[trigger] s[i]),
        pos + count == s.len() || !is_digit(s[pos + count]),
    ensures
        digits_end(s, pos) == pos + count,
    decreases count,
{
    if count > 0 {
        assert(is_digit(s[pos]));
        lemma_digits_end(s, pos + 1, count - 1);
    }
}

/// White space to the end of the text is skipped to the end.
proof fn lemma_skip_space_to_end(s: Seq<char>, pos: int)
    requires
        0 <= pos <= s.len(),
        forall|i: int| pos <= i < s.len() ==> is_space(#[trigger] s[i]),
    ensures
        skip_space(s, pos) == s.len(),
    decreases s.len() - pos,
{
    if pos < s.len() {
        assert(is_space(s[pos]));
        lemma_skip_space_to_end(s, pos + 1);
    }
}

/// A written number is read back, if no digit follows it.
proof fn lemma_number(n: u64, s: Seq<char>, pos: int)
    requires
        has_at(s, pos, decimal(n as nat)),
        pos + decimal(n as nat).len() == s.len() || !is_digit(s[pos + decimal(n as nat).len()]),
    ensures
        parse_number(s, pos) == Some((JsonValue::Number(n), pos + decimal(n as nat).len())),
{
    let word = decimal(n as nat);
    lemma_decimal_is_numeral(n as nat);
    lemma_numeral_round_trip(n);
    assert forall|i: int| pos <= i < pos + word.len() implies is_digit(#[trigger] s[i]) by {
        lemma_has_at_char(s, pos, word, i - pos);
        assert(is_digit(word[i - pos]));
    }
    lemma_digits_end(s, pos, word.len() as int);
}

/// A written value is read back, wherever it stands in a text, if it does not
/// nest deeper than the reader goes and, being a number, is not followed by
/// a digit.
pub proof fn lemma_parse_value(value: JsonValue, s: Seq<char>, pos: int, depth: nat)
    requires
        within_depth(value, depth),
        has_at(s, pos, json_text(value)),
        value is Number ==> pos + json_text(value).len() == s.len() || !is_digit(
            s[pos + json_text(value).len()],
        ),
    ensures
        parse_value(s, pos, depth) == Some((value, pos + json_text(value).len())),
    decreases value, 0nat,
{
    let text = json_text(value);
    lemma_text_opens(value);
    lemma_has_at_char(s, pos, text, 0);
    match value {
        JsonValue::Null => {},
        JsonValue::Bool(b) => {},
        JsonValue::Number(n) => {
            lemma_number(n, s, pos);
        },
        JsonValue::Text(content) => {
            lemma_has_at_parts(s, pos, seq!['"'], quoted_tail(content, 0));
            lemma_string_body(content, 0, s, pos + 1, Seq::empty());
            assert(Seq::<char>::empty() + content.subrange(0, content.len() as int) =~= content);
        },
        JsonValue::Array(items) => {
            let tail = items_tail(items, 0);
            lemma_items_tail_len(items, 0);
            lemma_has_at_parts(s, pos, seq!['['], tail);
            lemma_has_at_char(s, pos + 1, tail, 0);
            if items.len() == 0 {
                assert(items =~= Seq::<JsonValue>::empty());
            } else {
                lemma_items_tail_opens(items, 0);
                lemma_parse_items(items, 0, s, pos + 1, (depth - 1) as nat, Seq::empty());
                assert(Seq::<JsonValue>::empty() + items.subrange(0, items.len() as int)
                    =~= items);
            }
        },
        JsonValue::Object(members) => {
            let tail = members_tail(members, 0);
            lemma_members_tail_len(members, 0);
            lemma_has_at_parts(s, pos, seq!['{'], tail);
            lemma_has_at_char(s, pos + 1, tail, 0);
            if members.len() == 0 {
                assert(members =~= Seq::<(Seq<char>, JsonValue)>::empty());
            } else {
                lemma_members_tail_opens(members, 0);
                lemma_parse_members(members, 0, s, pos + 1, (depth - 1) as nat, Seq::empty());
                assert(Seq::<(Seq<char>, JsonValue)>::empty() + members.subrange(
                    0,
                    members.len() as int,
                ) =~= members);
            }
        },
    }
}

/// The written rest of an array is read back as the rest of its items.
pub proof fn lemma_parse_items(
    items: Seq<JsonValue>,
    from: int,
    s: Seq<char>,
    pos: int,
    depth: nat,
    acc: Seq<JsonValue>,
)
    requires
        0 <= from < items.len(),
        forall|i: int| 0 <= i < items.len() ==> within_depth(#[trigger] items[i], depth),
        has_at(s, pos, items_tail(items, from)),
    ensures
        parse_items(s, pos, depth, acc) == Some(
            (acc + items.subrange(from, items.len() as int), pos + items_tail(items, from).len()),
        ),
    decreases items, items.len() - from,
{
    let item = items[from];
    let text = json_text(item);
    let rest = items_tail(items, from + 1);
    let end = pos + text.len();
    lemma_text_opens(item);
    if from + 1 == items.len() {
        lemma_has_at_parts(s, pos, text, rest);
        lemma_has_at_char(s, end, rest, 0);
        lemma_parse_value(item, s, pos, depth);
        assert(acc.push(item) =~= acc + items.subrange(from, items.len() as int));
    } else {
        lemma_has_at_parts(s, pos, text + seq![','], rest);
        lemma_has_at_parts(s, pos, text, seq![',']);
        lemma_has_at_char(s, end, seq![','], 0);
        lemma_parse_value(item, s, pos, depth);
        lemma_items_tail_opens(items, from + 1);
        lemma_has_at_char(s, end + 1, rest, 0);
        lemma_parse_items(items, from + 1, s, end + 1, depth, acc.push(item));
        assert(acc.push(item) + items.subrange(from + 1, items.len() as int) =~= acc
            + items.subrange(from, items.len() as int));
    }
}

/// The written rest of an object is read back as the rest of its members.
pub proof fn lemma_parse_members(
    members: Seq<(Seq<char>, JsonValue)>,
    from: int,
    s: Seq<char>,
    pos: int,
    depth: nat,
    acc: Seq<(Seq<char>, JsonValue)>,
)
    requires
        0 <= from < members.len(),
        forall|i: int| 0 <= i < members.len() ==> within_depth((#[trigger] members[i]).1, depth),
        has_at(s, pos, members_tail(members, from)),
    ensures
        parse_members(s, pos, depth, acc) == Some(
            (
                acc + members.subrange(from, members.len() as int),
                pos + members_tail(members, from).len(),
            ),
        ),
    decreases members, members.len() - from,
{
    let member = members[from];
    let key = quoted(member.0);
    let text = json_text(member.1);
    let rest = members_tail(members, from + 1);
    let colon = pos + key.len();
    let end = colon + 1 + text.len();
    lemma_text_opens(member.1);
    lemma_quoted_opens(member.0);
    assert(within_depth(members[from].1, depth));
    if from + 1 == members.len() {
        lemma_has_at_parts(s, pos, key + seq![':'] + text, rest);
        lemma_has_at_parts(s, pos, key + seq![':'], text);
        lemma_has_at_parts(s, pos, key, seq![':']);
        lemma_has_at_char(s, end, rest, 0);
    } else {
        lemma_has_at_parts(s, pos, key + seq![':'] + text + seq![','], rest);
        lemma_has_at_parts(s, pos, key + seq![':'] + text, seq![',']);
        lemma_has_at_parts(s, pos, key + seq![':'], text);
        lemma_has_at_parts(s, pos, key, seq![':']);
        lemma_has_at_char(s, end, seq![','], 0);
    }
    lemma_has_at_char(s, pos, key, 0);
    lemma_has_at_parts(s, pos, seq!['"'], quoted_tail(member.0, 0));
    lemma_string_body(member.0, 0, s, pos + 1, Seq::empty());
    assert(Seq::<char>::empty() + member.0.subrange(0, member.0.len() as int) =~= member.0);
    lemma_has_at_char(s, colon, seq![':'], 0);
    lemma_has_at_char(s, colon + 1, text, 0);
    lemma_parse_value(member.1, s, colon + 1, depth);
    if from + 1 == members.len() {
        assert(acc.push(member) =~= acc + members.subrange(from, members.len() as int));
    } else {
        lemma_members_tail_opens(members, from + 1);
        lemma_has_at_char(s, end + 1, rest, 0);
        lemma_parse_members(members, from + 1, s, end + 1, depth, acc.push(member));
        assert(acc.push(member) + members.subrange(from + 1, members.len() as int) =~= acc
            + members.subrange(from, members.len() as int));
    }
}

/// Writing a value and reading the text gives the value back, also with
/// white space behind the text, such as the end of a line. This holds of
/// every value that nests no deeper than the reader goes.
pub proof fn lemma_text_round_trip(value: JsonValue, space: Seq<char>)
    requires
        within_depth(value, MAX_DEPTH as nat),
        forall|i: int| 0 <= i < space.len() ==> is_space(#[trigger] space[i]),
    ensures
        parse_json(json_text(value) + space) == Some(value),
{
    let text = json_text(value);
    let s = text + space;
    lemma_text_opens(value);
    assert(s[0] == text[0]);
    assert(s.subrange(0, text.len() as int) =~= text);
    if space.len() > 0 {
        assert(s[text.len() as int] == space[0]);
        assert(is_space(space[0]));
    }
    lemma_parse_value(value, s, 0, MAX_DEPTH as nat);
    assert forall|i: int| text.len() <= i < s.len() implies is_space(#[trigger] s[i]) by {
        assert(s[i] == space[i - text.len()]);
    }
    lemma_skip_space_to_end(s, text.len() as int);
}

} // verus!
