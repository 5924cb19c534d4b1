//! Step arguments: the kinds a step declares for its parameters, and the
//! conversion of the argument strings of a request into values of those kinds.

use crate::text::{all_digits, chars_of, digits_value, read_digits, same_text};
use vstd::prelude::*;

verus! {

/// The kind of value that a step declares for one of its parameters.
#[derive(Clone, Copy, Debug, PartialEq, Eq, Structural)]
pub enum ParamKind {
    /// The argument as it was captured.
    Text,
    /// A decimal integer that fits in 64 bits, with an optional sign.
    Integer,
    /// `true` or `false`.
    Boolean,
}

/// An argument after conversion, as a step handler receives it.
#[derive(Clone, Debug, PartialEq, Eq)]
pub enum StepArg {
    Text(String),
    Integer(i64),
    Boolean(bool),
}

/// The mathematical value of a `StepArg`.
pub enum StepArgView {
    Text(Seq<char>),
    Integer(int),
    Boolean(bool),
}

impl View for StepArg {
    type V = StepArgView;

    open spec fn view(&self) -> StepArgView {
        match self {
            StepArg::Text(s) => StepArgView::Text(s@),
            StepArg::Integer(n) => StepArgView::Integer(*n as int),
            StepArg::Boolean(b) => StepArgView::Boolean(*b),
        }
    }
}

/// Why the arguments of a request could not be handed to a step.
#[derive(Clone, Copy, Debug, PartialEq, Eq, Structural)]
pub enum ConversionError {
    /// The request gives `given` arguments where the step declares `expected`.
    WrongCount { expected: usize, given: usize },
    /// The argument at `index` is not a value of the declared kind.
    Invalid { index: usize, kind: ParamKind },
}

/// The views of a vector of strings.
pub open spec fn texts(v: Seq<String>) -> Seq<Seq<char>> {
    v.map_values(|s: String| s@)
}

/// The views of a vector of converted arguments.
pub open spec fn step_args(v: Seq<StepArg>) -> Seq<StepArgView> {
    v.map_values(|a: StepArg| a@)
}

/// The integer that `s` writes: an optional `+` or `-`, then one digit or
/// more; `None` where `s` is not of that form or the number does not fit in 64
/// bits.
pub open spec fn integer_value(s: Seq<char>) -> Option<int> {
    let signed = s.len() >= 1 && (s[0] == '-' || s[0] == '+');
    let digits = if signed { s.subrange(1, s.len() as int) } else { s };
    if digits.len() >= 1 && all_digits(digits) {
        let magnitude = digits_value(digits) as int;
        let value = if s[0] == '-' { -magnitude } else { magnitude };
        if i64::MIN <= value <= i64::MAX {
            Some(value)
        } else {
            None
        }
    } else {
        None
    }
}

/// The truth value that `s` writes: `true` or `false`, in lower case.
pub open spec fn boolean_value(s: Seq<char>) -> Option<bool> {
    if s == seq!['t', 'r', 'u', 'e'] {
        Some(true)
    } else if s == seq!['f', 'a', 'l', 's', 'e'] {
        Some(false)
    } else {
        None
    }
}

/// The value of kind `kind` that the argument string `s` converts to, if any.
pub open spec fn converted(kind: ParamKind, s: Seq<char>) -> Option<StepArgView> {
    match kind {
        ParamKind::Text => Some(StepArgView::Text(s)),
        ParamKind::Integer => match integer_value(s) {
            Some(n) => Some(StepArgView::Integer(n)),
            None => None,
        },
        ParamKind::Boolean => match boolean_value(s) {
            Some(b) => Some(StepArgView::Boolean(b)),
            None => None,
        },
    }
}

/// The conversion of `args[from..]` to `kinds[from..]`, one by one: all the
/// values, or the index of the first argument that does not convert.
pub open spec fn converted_from(kinds: Seq<ParamKind>, args: Seq<Seq<char>>, from: int) -> Result<
    Seq<StepArgView>,
    int,
>
    decreases kinds.len() - from,
{
    if from < 0 || from >= kinds.len() {
        Ok(Seq::empty())
    } else {
        match converted(kinds[from], args[from]) {
            None => Err(from),
            Some(value) => match converted_from(kinds, args, from + 1) {
                Ok(rest) => Ok(seq![value] + rest),
                Err(index) => Err(index),
            },
        }
    }
}

/// What `convert_args` returns: the converted arguments where there are as
/// many as the step declares and each is a value of its kind; else the count
/// that is wrong, or the first argument that is not.
pub open spec fn conversion(kinds: Seq<ParamKind>, args: Seq<Seq<char>>) -> Result<
    Seq<StepArgView>,
    ConversionError,
> {
    if args.len() != kinds.len() {
        Err(ConversionError::WrongCount { expected: kinds.len() as usize, given: args.len() as usize })
    } else {
        match converted_from(kinds, args, 0) {
            Ok(values) => Ok(values),
            Err(index) => Err(ConversionError::Invalid { index: index as usize, kind: kinds[index] }),
        }
    }
}

/// Reads `text` as an integer.
pub fn parse_integer(text: &str) -> (r: Option<i64>)
    ensures
        match r {
            Some(n) => integer_value(text@) == Some(n as int),
            None => integer_value(text@) is None,
        },
{
    let chars = chars_of(text);
    let n = chars.len();
    if n == 0 {
        return None;
    }
    let negative = chars[0] == '-';
    let from: usize = if negative || chars[0] == '+' { 1 } else { 0 };
    proof {
        assert(chars@.subrange(0, n as int) =~= chars@);
    }
    match read_digits(&chars, from, n) {
        None => None,
        Some(magnitude) => {
            if negative {
                if magnitude <= 0x7fff_ffff_ffff_ffff {
                    Some(-(magnitude as i64))
                } else if magnitude == 0x8000_0000_0000_0000 {
                    Some(i64::MIN)
                } else {
                    None
                }
            } else if magnitude <= 0x7fff_ffff_ffff_ffff {
                Some(magnitude as i64)
            } else {
                None
            }
        },
    }
}

/// Reads `text` as a truth value.
pub fn parse_boolean(text: &str) -> (r: Option<bool>)
    ensures
        r == boolean_value(text@),
{
    proof {
        reveal_strlit("true");
        reveal_strlit("false");
        assert("true"@ =~= seq!['t', 'r', 'u', 'e']);
        assert("false"@ =~= seq!['f', 'a', 'l', 's', 'e']);
    }
    if same_text(text, "true") {
        Some(true)
    } else if same_text(text, "false") {
        Some(false)
    } else {
        None
    }
}

/// Converts one argument string to a value of the kind `kind`.
pub fn convert_arg(kind: ParamKind, text: &str) -> (r: Option<StepArg>)
    ensures
        match r {
            Some(value) => converted(kind, text@) == Some(value@),
            None => converted(kind, text@) is None,
        },
{
    match kind {
        ParamKind::Text => Some(StepArg::Text(text.to_owned())),
        ParamKind::Integer => match parse_integer(text) {
            Some(n) => Some(StepArg::Integer(n)),
            None => None,
        },
        ParamKind::Boolean => match parse_boolean(text) {
            Some(b) => Some(StepArg::Boolean(b)),
            None => None,
        },
    }
}

/// Converts the argument strings of a request to the kinds that a step
/// declares. Nothing is coerced: a string that is not a value of its kind is
/// an error, and so is a wrong number of arguments.
pub fn convert_args(kinds: &Vec<ParamKind>, args: &Vec<String>) -> (r: Result<
    Vec<StepArg>,
    ConversionError,
>)
    ensures
        match r {
            Ok(values) => conversion(kinds@, texts(args@)) == Ok::<Seq<StepArgView>, ConversionError>(
                step_args(values@),
            ),
            Err(error) => conversion(kinds@, texts(args@)) == Err::<Seq<StepArgView>, ConversionError>(
                error,
            ),
        },
{
    if args.len() != kinds.len() {
        return Err(ConversionError::WrongCount { expected: kinds.len(), given: args.len() });
    }
    let ghost all = texts(args@);
    let mut values: Vec<StepArg> = Vec::new();
    let mut i: usize = 0;
    while i < kinds.len()
        invariant
            i <= kinds.len() == args.len(),
            all == texts(args@),
            values.len() == i,
            converted_from(kinds@, all, 0) == match converted_from(kinds@, all, i as int) {
                Ok(rest) => Ok::<Seq<StepArgView>, int>(step_args(values@) + rest),
                Err(index) => Err::<Seq<StepArgView>, int>(index),
            },
        decreases kinds.len() - i,
    {
        let ghost before = step_args(values@);
        match convert_arg(kinds[i], args[i].as_str()) {
            None => {
                return Err(ConversionError::Invalid { index: i, kind: kinds[i] });
            },
            Some(value) => {
                values.push(value);
                proof {
                    assert(step_args(values@) =~= before.push(value@));
                    match converted_from(kinds@, all, i + 1) {
                        Ok(rest) => {
                            assert(before + (seq![value@] + rest) =~= step_args(values@) + rest);
                        },
                        Err(_) => {},
                    }
                }
            },
        }
        i += 1;
    }
    proof {
        assert(step_args(values@) + Seq::<StepArgView>::empty() =~= step_args(values@));
    }
    Ok(values)
}

} // verus!
