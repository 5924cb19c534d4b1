//! The messages of the wire protocol: the five kinds of request and the
//! responses to them.

use crate::args::texts;
use crate::registry::{pending_matches, PendingMatch, PendingMatchView};
use vstd::prelude::*;

verus! {

/// A request of the driver.
#[derive(Clone, Debug, PartialEq, Eq)]
pub enum Request {
    /// A scenario starts.
    BeginScenario,
    /// A scenario has ended.
    EndScenario,
    /// Which steps match this step name?
    StepMatches { name_to_match: String },
    /// Run the step with this id on these arguments.
    Invoke { id: String, args: Vec<String> },
    /// Give the text of a skeleton for a step that is not defined yet.
    SnippetText { step_keyword: String, step_name: String, multiline_arg_class: Option<String> },
}

/// The mathematical value of a `Request`.
pub enum RequestView {
    BeginScenario,
    EndScenario,
    StepMatches { name_to_match: Seq<char> },
    Invoke { id: Seq<char>, args: Seq<Seq<char>> },
    SnippetText {
        step_keyword: Seq<char>,
        step_name: Seq<char>,
        multiline_arg_class: Option<Seq<char>>,
    },
}

/// The view of a string that may be absent.
pub open spec fn optional_text(s: Option<String>) -> Option<Seq<char>> {
    match s {
        Some(s) => Some(s@),
        None => None,
    }
}

impl View for Request {
    type V = RequestView;

    open spec fn view(&self) -> RequestView {
        match self {
            Request::BeginScenario => RequestView::BeginScenario,
            Request::EndScenario => RequestView::EndScenario,
            Request::StepMatches { name_to_match } => RequestView::StepMatches {
                name_to_match: name_to_match@,
            },
            Request::Invoke { id, args } => RequestView::Invoke { id: id@, args: texts(args@) },
            Request::SnippetText {
                step_keyword,
                step_name,
                multiline_arg_class,
            } => RequestView::SnippetText {
                step_keyword: step_keyword@,
                step_name: step_name@,
                multiline_arg_class: optional_text(*multiline_arg_class),
            },
        }
    }
}

/// A response to the driver. The first four are sent as `success`, the others
/// as `fail` and `pending`.
#[derive(Clone, Debug, PartialEq, Eq)]
pub enum Response {
    /// Success with nothing to report.
    Success,
    /// The steps that match a step name; the list may be empty.
    StepMatches(Vec<PendingMatch>),
    /// A step ran to its end and reports a text.
    InvokeResult { text: String },
    /// The text of a skeleton.
    Snippet { snippet: String },
    /// A step failed, or could not be run.
    Fail { message: String, exception: String },
    /// A step is known but not written yet.
    Pending { message: String },
}

/// The mathematical value of a `Response`.
pub enum ResponseView {
    Success,
    StepMatches(Seq<PendingMatchView>),
    InvokeResult { text: Seq<char> },
    Snippet { snippet: Seq<char> },
    Fail { message: Seq<char>, exception: Seq<char> },
    Pending { message: Seq<char> },
}

impl View for Response {
    type V = ResponseView;

    open spec fn view(&self) -> ResponseView {
        match self {
            Response::Success => ResponseView::Success,
            Response::StepMatches(found) => ResponseView::StepMatches(pending_matches(found@)),
            Response::InvokeResult { text } => ResponseView::InvokeResult { text: text@ },
            Response::Snippet { snippet } => ResponseView::Snippet { snippet: snippet@ },
            Response::Fail { message, exception } => ResponseView::Fail {
                message: message@,
                exception: exception@,
            },
            Response::Pending { message } => ResponseView::Pending { message: message@ },
        }
    }
}

} // verus!
