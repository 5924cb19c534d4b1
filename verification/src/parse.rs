//! Reading JSON text.
//!
//! The grammar is that of JSON, read strictly: white space is the space, the
//! tab, the line feed and the carriage return; a string holds no raw control
//! character; a number is a decimal numeral without sign, fraction or
//! exponent that fits in 64 bits; arrays and objects nest at most
//! `MAX_DEPTH` deep. Any other text is not read at all.

use crate::json::{items_view, members_view, Json, JsonValue};
use crate::text::{chars_of, is_digit, numeral_u64, push_char, read_digits};
use vstd::prelude::*;

verus! {

/// How deep arrays and objects may nest in a text that is read.
pub const MAX_DEPTH: usize = 64;

/// Whether `c` is white space between the parts of a JSON text.
pub open spec fn is_space(c: char) -> bool {
    c == ' ' || c == '\t' || c == '\n' || c == '\r'
}

/// The first position at or after `pos` that holds no white space.
pub open spec fn skip_space(s: Seq<char>, pos: int) -> int
    decreases s.len() - pos,
{
    if 0 <= pos < s.len() && is_space(s[pos]) {
        skip_space(s, pos + 1)
    } else {
        pos
    }
}

/// Whether `s` holds `word` at `pos`.
pub open spec fn has_at(s: Seq<char>, pos: int, word: Seq<char>) -> bool {
    0 <= pos && pos + word.len() <= s.len() && s.subrange(pos, pos + word.len()) == word
}

/// The number that a hexadecimal digit writes, in either case.
pub open spec fn hex_value(c: char) -> Option<nat> {
    if '0' <= c <= '9' {
        Some((c as nat - 48) as nat)
    } else if 'a' <= c <= 'f' {
        Some((c as nat - 87) as nat)
    } else if 'A' <= c <= 'F' {
        Some((c as nat - 55) as nat)
    } else {
        None
    }
}

/// The number that the four hexadecimal digits at `pos` write.
pub open spec fn hex4(s: Seq<char>, pos: int) -> Option<nat> {
    if pos < 0 || pos + 4 > s.len() {
        None
    } else if hex_value(s[pos]) is Some && hex_value(s[pos + 1]) is Some && hex_value(
        s[pos + 2],
    ) is Some && hex_value(s[pos + 3]) is Some {
        Some(
            hex_value(s[pos]).unwrap() * 4096 + hex_value(s[pos + 1]).unwrap() * 256 + hex_value(
                s[pos + 2],
            ).unwrap() * 16 + hex_value(s[pos + 3]).unwrap(),
        )
    } else {
        None
    }
}

/// Whether `n` is the code of a character: a code point that is no
/// surrogate.
pub open spec fn is_scalar(n: nat) -> bool {
    n < 0xD800 || 0xE000 <= n <= 0x10FFFF
}

/// The character that the escape behind the backslash before `pos` stands
/// for, and the position behind the escape. A code between D800 and DBFF
/// must be followed by the escape of a code between DC00 and DFFF; the two
/// together stand for one character.
pub open spec fn unescaped(s: Seq<char>, pos: int) -> Option<(char, int)> {
    if pos < 0 || pos >= s.len() {
        None
    } else if s[pos] == '"' {
        Some(('"', pos + 1))
    } else if s[pos] == '\\' {
        Some(('\\', pos + 1))
    } else if s[pos] == '/' {
        Some(('/', pos + 1))
    } else if s[pos] == 'b' {
        Some(('\u{8}', pos + 1))
    } else if s[pos] == 'f' {
        Some(('\u{c}', pos + 1))
    } else if s[pos] == 'n' {
        Some(('\n', pos + 1))
    } else if s[pos] == 'r' {
        Some(('\r', pos + 1))
    } else if s[pos] == 't' {
        Some(('\t', pos + 1))
    } else if s[pos] == 'u' {
        match hex4(s, pos + 1) {
            None => None,
            Some(unit) => if unit < 0xD800 || unit >= 0xE000 {
                Some((unit as char, pos + 5))
            } else if unit < 0xDC00 && pos + 7 <= s.len() && s[pos + 5] == '\\' && s[pos + 6]
                == 'u' {
                match hex4(s, pos + 7) {
                    Some(low) => if 0xDC00 <= low < 0xE000 {
                        Some(
                            (
                                (0x10000 + (unit - 0xD800) * 0x400 + (low - 0xDC00)) as char,
                                pos + 11,
                            ),
                        )
                    } else {
                        None
                    },
                    None => None,
                }
            } else {
                None
            },
        }
    } else {
        None
    }
}

/// The rest of a string from `pos`, behind what was read as `acc`: the
/// string that the text up to the closing quote stands for, and the position
/// behind that quote.
pub open spec fn string_body(s: Seq<char>, pos: int, acc: Seq<char>) -> Option<(Seq<char>, int)>
    decreases s.len() - pos,
{
    if pos < 0 || pos >= s.len() {
        None
    } else if s[pos] == '"' {
        Some((acc, pos + 1))
    } else if s[pos] == '\\' {
        match unescaped(s, pos + 1) {
            Some((c, next)) => if pos < next <= s.len() {
                string_body(s, next, acc.push(c))
            } else {
                None
            },
            None => None,
        }
    } else if s[pos] <= '\u{1f}' {
        None
    } else {
        string_body(s, pos + 1, acc.push(s[pos]))
    }
}

/// The first position at or after `pos` that holds no digit.
pub open spec fn digits_end(s: Seq<char>, pos: int) -> int
    decreases s.len() - pos,
{
    if 0 <= pos < s.len() && is_digit(s[pos]) {
        digits_end(s, pos + 1)
    } else {
        pos
    }
}

/// The number written at `pos`, and the position behind its last digit.
pub open spec fn parse_number(s: Seq<char>, pos: int) -> Option<(JsonValue, int)> {
    let end = digits_end(s, pos);
    match numeral_u64(s.subrange(pos, end)) {
        Some(n) => Some((JsonValue::Number(n), end)),
        None => None,
    }
}

/// The value written at `pos`, and the position behind it, where arrays and
/// objects may nest `depth` deep.
pub open spec fn parse_value(s: Seq<char>, pos: int, depth: nat) -> Option<(JsonValue, int)>
    decreases depth, s.len() - pos, 0nat,
{
    if pos < 0 || pos >= s.len() {
        None
    } else if s[pos] == 'n' {
        if has_at(s, pos, seq!['n', 'u', 'l', 'l']) {
            Some((JsonValue::Null, pos + 4))
        } else {
            None
        }
    } else if s[pos] == 't' {
        if has_at(s, pos, seq!['t', 'r', 'u', 'e']) {
            Some((JsonValue::Bool(true), pos + 4))
        } else {
            None
        }
    } else if s[pos] == 'f' {
        if has_at(s, pos, seq!['f', 'a', 'l', 's', 'e']) {
            Some((JsonValue::Bool(false), pos + 5))
        } else {
            None
        }
    } else if s[pos] == '"' {
        match string_body(s, pos + 1, Seq::empty()) {
            Some((text, end)) => Some((JsonValue::Text(text), end)),
            None => None,
        }
    } else if is_digit(s[pos]) {
        parse_number(s, pos)
    } else if s[pos] == '[' {
        if depth == 0 {
            None
        } else {
            let first = skip_space(s, pos + 1);
            if 0 <= first < s.len() && s[first] == ']' {
                Some((JsonValue::Array(Seq::empty()), first + 1))
            } else {
                match parse_items(s, first, (depth - 1) as nat, Seq::empty()) {
                    Some((items, end)) => Some((JsonValue::Array(items), end)),
                    None => None,
                }
            }
        }
    } else if s[pos] == '{' {
        if depth == 0 {
            None
        } else {
            let first = skip_space(s, pos + 1);
            if 0 <= first < s.len() && s[first] == '}' {
                Some((JsonValue::Object(Seq::empty()), first + 1))
            } else {
                match parse_members(s, first, (depth - 1) as nat, Seq::empty()) {
                    Some((members, end)) => Some((JsonValue::Object(members), end)),
                    None => None,
                }
            }
        }
    } else {
        None
    }
}

/// The items of an array from `pos`, behind those read as `acc`, and the
/// position behind the closing bracket.
pub open spec fn parse_items(s: Seq<char>, pos: int, depth: nat, acc: Seq<JsonValue>) -> Option<
    (Seq<JsonValue>, int),
>
    decreases depth, s.len() - pos, 1nat,
{
    match parse_value(s, pos, depth) {
        None => None,
        Some((item, end)) => {
            let next = skip_space(s, end);
            if next < 0 || next >= s.len() {
                None
            } else if s[next] == ']' {
                Some((acc.push(item), next + 1))
            } else if s[next] == ',' {
                let after = skip_space(s, next + 1);
                if pos < after <= s.len() {
                    parse_items(s, after, depth, acc.push(item))
                } else {
                    None
                }
            } else {
                None
            }
        },
    }
}

/// The members of an object from `pos`, behind those read as `acc`, and the
/// position behind the closing brace.
pub open spec fn parse_members(
    s: Seq<char>,
    pos: int,
    depth: nat,
    acc: Seq<(Seq<char>, JsonValue)>,
) -> Option<(Seq<(Seq<char>, JsonValue)>, int)>
    decreases depth, s.len() - pos, 1nat,
{
    if pos < 0 || pos >= s.len() || s[pos] != '"' {
        None
    } else {
        match string_body(s, pos + 1, Seq::empty()) {
            None => None,
            Some((key, key_end)) => {
                let colon = skip_space(s, key_end);
                if colon < 0 || colon >= s.len() || s[colon] != ':' {
                    None
                } else {
                    let value_at = skip_space(s, colon + 1);
                    if pos < value_at <= s.len() {
                        match parse_value(s, value_at, depth) {
                            None => None,
                            Some((value, value_end)) => {
                                let next = skip_space(s, value_end);
                                if next < 0 || next >= s.len() {
                                    None
                                } else if s[next] == '}' {
                                    Some((acc.push((key, value)), next + 1))
                                } else if s[next] == ',' {
                                    let after = skip_space(s, next + 1);
                                    if pos < after <= s.len() {
                                        parse_members(s, after, depth, acc.push((key, value)))
                                    } else {
                                        None
                                    }
                                } else {
                                    None
                                }
                            },
                        }
                    } else {
                        None
                    }
                }
            },
        }
    }
}

/// The value that a text stands for: one value, with white space before and
/// after it at most, nested `MAX_DEPTH` deep at most.
pub open spec fn parse_json(s: Seq<char>) -> Option<JsonValue> {
    match parse_value(s, skip_space(s, 0), MAX_DEPTH as nat) {
        Some((value, end)) => if skip_space(s, end) == s.len() {
            Some(value)
        } else {
            None
        },
        None => None,
    }
}

/// `char::from_u32` of std: the character with the code `code`, where `code`
/// is the code of a character.
#[verifier::external_body]
fn char_of(code: u32) -> (r: Option<char>)
    ensures
        r == (if is_scalar(code as nat) {
            Some(code as char)
        } else {
            None
        }),
{
    char::from_u32(code)
}

/// Skips white space.
fn pass_space(chars: &Vec<char>, pos: usize) -> (r: usize)
    requires
        pos <= chars.len(),
    ensures
        r == skip_space(chars@, pos as int),
        pos <= r <= chars.len(),
{
    let mut at = pos;
    while at < chars.len() && (chars[at] == ' ' || chars[at] == '\t' || chars[at] == '\n'
        || chars[at] == '\r')
        invariant
            pos <= at <= chars.len(),
            skip_space(chars@, pos as int) == skip_space(chars@, at as int),
        decreases chars.len() - at,
    {
        at += 1;
    }
    at
}

/// Whether `chars` holds `word` at `pos`.
fn holds_word(chars: &Vec<char>, pos: usize, word: &Vec<char>) -> (r: bool)
    requires
        pos <= chars.len(),
    ensures
        r == has_at(chars@, pos as int, word@),
{
    if word.len() > chars.len() - pos {
        return false;
    }
    let ghost part = chars@.subrange(pos as int, pos + word.len());
    let mut i: usize = 0;
    while i < word.len()
        invariant
            i <= word.len() <= chars.len() - pos,
            part == chars@.subrange(pos as int, pos + word.len()),
            forall|j: int| 0 <= j < i ==> part[j] == word@[j],
        decreases word.len() - i,
    {
        if chars[pos + i] != word[i] {
            assert(part[i as int] != word@[i as int]);
            return false;
        }
        i += 1;
    }
    assert(part =~= word@);
    true
}

/// The number that a hexadecimal digit writes.
fn hex_of(c: char) -> (r: Option<u32>)
    ensures
        match r {
            Some(n) => hex_value(c) == Some(n as nat) && n < 16,
            None => hex_value(c) is None,
        },
{
    if '0' <= c && c <= '9' {
        Some(c as u32 - 48)
    } else if 'a' <= c && c <= 'f' {
        Some(c as u32 - 87)
    } else if 'A' <= c && c <= 'F' {
        Some(c as u32 - 55)
    } else {
        None
    }
}

/// The number that the four hexadecimal digits at `pos` write.
fn read_hex4(chars: &Vec<char>, pos: usize) -> (r: Option<u32>)
    requires
        pos <= chars.len(),
    ensures
        match r {
            Some(n) => hex4(chars@, pos as int) == Some(n as nat) && n <= 0xFFFF && pos + 4
                <= chars.len(),
            None => hex4(chars@, pos as int) is None,
        },
{
    if chars.len() - pos < 4 {
        return None;
    }
    match (hex_of(chars[pos]), hex_of(chars[pos + 1]), hex_of(chars[pos + 2]), hex_of(chars[pos + 3])) {
        (Some(a), Some(b), Some(c), Some(d)) => Some(a * 4096 + b * 256 + c * 16 + d),
        _ => None,
    }
}

/// Reads the escape behind a backslash.
fn read_escape(chars: &Vec<char>, pos: usize) -> (r: Option<(char, usize)>)
    requires
        pos <= chars.len(),
    ensures
        match r {
            Some((c, next)) => unescaped(chars@, pos as int) == Some((c, next as int)) && pos
                < next <= chars.len(),
            None => unescaped(chars@, pos as int) is None,
        },
{
    if pos >= chars.len() {
        return None;
    }
    let c = chars[pos];
    if c == '"' {
        Some(('"', pos + 1))
    } else if c == '\\' {
        Some(('\\', pos + 1))
    } else if c == '/' {
        Some(('/', pos + 1))
    } else if c == 'b' {
        Some(('\u{8}', pos + 1))
    } else if c == 'f' {
        Some(('\u{c}', pos + 1))
    } else if c == 'n' {
        Some(('\n', pos + 1))
    } else if c == 'r' {
        Some(('\r', pos + 1))
    } else if c == 't' {
        Some(('\t', pos + 1))
    } else if c == 'u' {
        let unit = match read_hex4(chars, pos + 1) {
            None => {
                return None;
            },
            Some(unit) => unit,
        };
        if unit < 0xD800 || unit >= 0xE000 {
            match char_of(unit) {
                Some(ch) => Some((ch, pos + 5)),
                None => None,
            }
        } else if unit < 0xDC00 && chars.len() - pos >= 7 && chars[pos + 5] == '\\' && chars[pos
            + 6] == 'u' {
            match read_hex4(chars, pos + 7) {
                Some(low) => if 0xDC00 <= low && low < 0xE000 {
                    let code: u32 = 0x10000 + (unit - 0xD800) * 0x400 + (low - 0xDC00);
                    match char_of(code) {
                        Some(ch) => Some((ch, pos + 11)),
                        None => None,
                    }
                } else {
                    None
                },
                None => None,
            }
        } else {
            None
        }
    } else {
        None
    }
}

/// Reads the rest of a string from behind its opening quote.
fn read_string(chars: &Vec<char>, start: usize) -> (r: Option<(String, usize)>)
    requires
        start <= chars.len(),
    ensures
        match r {
            Some((text, end)) => string_body(chars@, start as int, Seq::empty()) == Some(
                (text@, end as int),
            ) && start < end <= chars.len(),
            None => string_body(chars@, start as int, Seq::empty()) is None,
        },
{
    let mut text = String::new();
    let mut pos = start;
    loop
        invariant
            start <= pos <= chars.len(),
            string_body(chars@, start as int, Seq::empty()) == string_body(
                chars@,
                pos as int,
                text@,
            ),
        decreases chars.len() - pos,
    {
        if pos >= chars.len() {
            return None;
        }
        let c = chars[pos];
        if c == '"' {
            return Some((text, pos + 1));
        } else if c == '\\' {
            match read_escape(chars, pos + 1) {
                None => {
                    return None;
                },
                Some((ch, next)) => {
                    push_char(&mut text, ch);
                    pos = next;
                },
            }
        } else if c <= '\u{1f}' {
            return None;
        } else {
            push_char(&mut text, c);
            pos += 1;
        }
    }
}

/// Reads a number.
fn read_number(chars: &Vec<char>, pos: usize) -> (r: Option<(Json, usize)>)
    requires
        pos < chars.len(),
        is_digit(chars@[pos as int]),
    ensures
        match r {
            Some((value, end)) => parse_number(chars@, pos as int) == Some((value@, end as int))
                && pos < end <= chars.len(),
            None => parse_number(chars@, pos as int) is None,
        },
{
    let mut end = pos;
    while end < chars.len() && '0' <= chars[end] && chars[end] <= '9'
        invariant
            pos <= end <= chars.len(),
            digits_end(chars@, pos as int) == digits_end(chars@, end as int),
            end == pos ==> is_digit(chars@[pos as int]),
        decreases chars.len() - end,
    {
        end += 1;
    }
    assert(end > pos);
    assert(chars@.subrange(pos as int, end as int)[0] == chars@[pos as int]);
    if end - pos > 1 && chars[pos] == '0' {
        return None;
    }
    match read_digits(chars, pos, end) {
        Some(n) => Some((Json::Number(n), end)),
        None => None,
    }
}

/// Reads the value at `pos`.
#[verifier::loop_isolation(false)]
fn read_value(chars: &Vec<char>, pos: usize, depth: usize) -> (r: Option<(Json, usize)>)
    requires
        pos <= chars.len(),
    ensures
        match r {
            Some((value, end)) => parse_value(chars@, pos as int, depth as nat) == Some(
                (value@, end as int),
            ) && pos < end <= chars.len(),
            None => parse_value(chars@, pos as int, depth as nat) is None,
        },
    decreases depth, 0nat,
{
    if pos >= chars.len() {
        return None;
    }
    let c = chars[pos];
    if c == 'n' {
        if holds_word(chars, pos, &vec!['n', 'u', 'l', 'l']) {
            Some((Json::Null, pos + 4))
        } else {
            None
        }
    } else if c == 't' {
        if holds_word(chars, pos, &vec!['t', 'r', 'u', 'e']) {
            Some((Json::Bool(true), pos + 4))
        } else {
            None
        }
    } else if c == 'f' {
        if holds_word(chars, pos, &vec!['f', 'a', 'l', 's', 'e']) {
            Some((Json::Bool(false), pos + 5))
        } else {
            None
        }
    } else if c == '"' {
        match read_string(chars, pos + 1) {
            Some((text, end)) => Some((Json::Text(text), end)),
            None => None,
        }
    } else if '0' <= c && c <= '9' {
        read_number(chars, pos)
    } else if c == '[' {
        if depth == 0 {
            return None;
        }
        let first = pass_space(chars, pos + 1);
        if first < chars.len() && chars[first] == ']' {
            let items: Vec<Json> = Vec::new();
            assert(items_view(items@) =~= Seq::<JsonValue>::empty());
            Some((Json::Array(items), first + 1))
        } else {
            match read_items(chars, first, depth - 1) {
                Some((items, end)) => Some((Json::Array(items), end)),
                None => None,
            }
        }
    } else if c == '{' {
        if depth == 0 {
            return None;
        }
        let first = pass_space(chars, pos + 1);
        if first < chars.len() && chars[first] == '}' {
            let members: Vec<(String, Json)> = Vec::new();
            assert(members_view(members@) =~= Seq::<(Seq<char>, JsonValue)>::empty());
            Some((Json::Object(members), first + 1))
        } else {
            match read_members(chars, first, depth - 1) {
                Some((members, end)) => Some((Json::Object(members), end)),
                None => None,
            }
        }
    } else {
        None
    }
}

/// Reads the items of an array from behind its opening bracket.
#[verifier::loop_isolation(false)]
fn read_items(chars: &Vec<char>, start: usize, depth: usize) -> (r: Option<(Vec<Json>, usize)>)
    requires
        start <= chars.len(),
    ensures
        match r {
            Some((items, end)) => parse_items(
                chars@,
                start as int,
                depth as nat,
                Seq::empty(),
            ) == Some((items_view(items@), end as int)) && start < end <= chars.len(),
            None => parse_items(chars@, start as int, depth as nat, Seq::empty()) is None,
        },
    decreases depth, 1nat,
{
    let mut items: Vec<Json> = Vec::new();
    let mut pos = start;
    assert(items_view(items@) =~= Seq::<JsonValue>::empty());
    loop
        invariant
            start <= pos <= chars.len(),
            parse_items(chars@, start as int, depth as nat, Seq::empty()) == parse_items(
                chars@,
                pos as int,
                depth as nat,
                items_view(items@),
            ),
        decreases chars.len() - pos,
    {
        match read_value(chars, pos, depth) {
            None => {
                return None;
            },
            Some((item, end)) => {
                let next = pass_space(chars, end);
                if next >= chars.len() {
                    return None;
                }
                let ghost before = items_view(items@);
                items.push(item);
                assert(items_view(items@) =~= before.push(item@));
                if chars[next] == ']' {
                    return Some((items, next + 1));
                } else if chars[next] == ',' {
                    pos = pass_space(chars, next + 1);
                } else {
                    return None;
                }
            },
        }
    }
}

/// Reads the members of an object from behind its opening brace.
#[verifier::loop_isolation(false)]
fn read_members(chars: &Vec<char>, start: usize, depth: usize) -> (r: Option<
    (Vec<(String, Json)>, usize),
>)
    requires
        start <= chars.len(),
    ensures
        match r {
            Some((members, end)) => parse_members(
                chars@,
                start as int,
                depth as nat,
                Seq::empty(),
            ) == Some((members_view(members@), end as int)) && start < end <= chars.len(),
            None => parse_members(chars@, start as int, depth as nat, Seq::empty()) is None,
        },
    decreases depth, 1nat,
{
    let mut members: Vec<(String, Json)> = Vec::new();
    let mut pos = start;
    assert(members_view(members@) =~= Seq::<(Seq<char>, JsonValue)>::empty());
    loop
        invariant
            start <= pos <= chars.len(),
            parse_members(chars@, start as int, depth as nat, Seq::empty()) == parse_members(
                chars@,
                pos as int,
                depth as nat,
                members_view(members@),
            ),
        decreases chars.len() - pos,
    {
        if pos >= chars.len() || chars[pos] != '"' {
            return None;
        }
        let (key, key_end) = match read_string(chars, pos + 1) {
            None => {
                return None;
            },
            Some(found) => found,
        };
        let colon = pass_space(chars, key_end);
        if colon >= chars.len() || chars[colon] != ':' {
            return None;
        }
        let value_at = pass_space(chars, colon + 1);
        match read_value(chars, value_at, depth) {
            None => {
                return None;
            },
            Some((value, value_end)) => {
                let next = pass_space(chars, value_end);
                if next >= chars.len() {
                    return None;
                }
                let ghost before = members_view(members@);
                let ghost member = (key@, value@);
                members.push((key, value));
                assert(members_view(members@) =~= before.push(member));
                if chars[next] == '}' {
                    return Some((members, next + 1));
                } else if chars[next] == ',' {
                    pos = pass_space(chars, next + 1);
                } else {
                    return None;
                }
            },
        }
    }
}

/// Reads a JSON text.
pub fn parse(text: &str) -> (r: Option<Json>)
    ensures
        match r {
            Some(value) => parse_json(text@) == Some(value@),
            None => parse_json(text@) is None,
        },
{
    let chars = chars_of(text);
    let start = pass_space(&chars, 0);
    match read_value(&chars, start, MAX_DEPTH) {
        Some((value, end)) => if pass_space(&chars, end) == chars.len() {
            Some(value)
        } else {
            None
        },
        None => None,
    }
}

} // verus!
