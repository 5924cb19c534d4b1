//! The dispatch engine: one request in, one response out, against the step
//! registry and the world.

use crate::args::{
    conversion, convert_args, texts, ConversionError, ParamKind, StepArg, StepArgView,
};
use crate::protocol::{Request, RequestView, Response, ResponseView};
use crate::registry::{
    anchored, is_step_pattern, matches_among, regexes_of, step_id, step_match, step_ran,
    InvalidPatternError, StepRegistry, StepView,
};
use crate::step::{StepHandler, StepOutcome, StepOutcomeView, World};
use crate::text::{decimal, numeral_u64, parse_numeral, push_decimal};
use vstd::prelude::*;
use vstd::string::StringExecFns;

verus! {

/// The index of the step that the driver means by `id`, among `count` steps:
/// the number whose decimal numeral `id` is, if it is below `count`.
pub open spec fn step_index(count: nat, id: Seq<char>) -> Option<nat> {
    match numeral_u64(id) {
        Some(n) => if n < count {
            Some(n as nat)
        } else {
            None
        },
        None => None,
    }
}

/// The name under which failures of the protocol are reported: an id that
/// names no step.
pub open spec fn unknown_step_exception() -> Seq<char> {
    "UnknownStep"@
}

/// The name under which arguments that do not convert are reported.
pub open spec fn argument_exception() -> Seq<char> {
    "ArgumentError"@
}

/// The response to a request to run a step under an id that names none.
pub open spec fn unknown_step_response(id: Seq<char>) -> ResponseView {
    ResponseView::Fail {
        message: "no step is registered under the id "@ + id,
        exception: unknown_step_exception(),
    }
}

/// The name of a kind of parameter, as messages give it.
pub open spec fn kind_name(kind: ParamKind) -> Seq<char> {
    match kind {
        ParamKind::Text => "text"@,
        ParamKind::Integer => "integer"@,
        ParamKind::Boolean => "boolean"@,
    }
}

/// The message that tells of arguments that cannot be handed to a step.
pub open spec fn conversion_message(error: ConversionError) -> Seq<char> {
    match error {
        ConversionError::WrongCount { expected, given } => "the step takes "@ + decimal(
            expected as nat,
        ) + " argument(s), the request gives "@ + decimal(given as nat),
        ConversionError::Invalid { index, kind } => "argument "@ + decimal(index as nat)
            + " is not of the kind "@ + kind_name(kind),
    }
}

/// The response to a request whose arguments cannot be handed to the step.
pub open spec fn conversion_response(error: ConversionError) -> ResponseView {
    ResponseView::Fail { message: conversion_message(error), exception: argument_exception() }
}

/// The response that reports an outcome.
pub open spec fn outcome_response(outcome: StepOutcomeView) -> ResponseView {
    match outcome {
        StepOutcomeView::Passed => ResponseView::Success,
        StepOutcomeView::PassedWith { text } => ResponseView::InvokeResult { text },
        StepOutcomeView::Failed { message, exception } => ResponseView::Fail { message, exception },
        StepOutcomeView::Pending { message } => ResponseView::Pending { message },
    }
}

/// Whether a response reports the outcome of a step.
pub open spec fn reports_outcome(response: ResponseView) -> bool {
    response is Success || response is InvokeResult || response is Fail || response is Pending
}

/// A response reports an outcome exactly if some outcome is reported by it.
pub proof fn lemma_reports_outcome(response: ResponseView)
    ensures
        reports_outcome(response) <==> exists|outcome: StepOutcomeView|
            response == #[trigger] outcome_response(outcome),
{
    match response {
        ResponseView::Success => {
            assert(response == outcome_response(StepOutcomeView::Passed));
        },
        ResponseView::InvokeResult { text } => {
            assert(response == outcome_response(StepOutcomeView::PassedWith { text }));
        },
        ResponseView::Fail { message, exception } => {
            assert(response == outcome_response(StepOutcomeView::Failed { message, exception }));
        },
        ResponseView::Pending { message } => {
            assert(response == outcome_response(StepOutcomeView::Pending { message }));
        },
        _ => {},
    }
}

/// What is to be done with a request to run a step.
pub enum InvokePlan {
    /// The step at `index` is run on `args`.
    Run { index: nat, args: Seq<StepArgView> },
    /// No step is run, and this response is given.
    Refuse { response: ResponseView },
}

/// What is done with a request to run the step `id` on `args`: the step is
/// run where `id` names one and the arguments convert to the kinds it
/// declares; else the request is refused, and no handler is called.
pub open spec fn invoke_plan<W>(steps: Seq<StepView<W>>, id: Seq<char>, args: Seq<Seq<char>>) -> InvokePlan {
    match step_index(steps.len(), id) {
        None => InvokePlan::Refuse { response: unknown_step_response(id) },
        Some(index) => match conversion(steps[index as int].params, args) {
            Ok(values) => InvokePlan::Run { index, args: values },
            Err(error) => InvokePlan::Refuse { response: conversion_response(error) },
        },
    }
}

/// The skeleton for a step that is not defined yet: a comment that names the
/// step, with the class of its multiline argument where it has one, and the
/// line that registers a step under the name, anchored at both ends, with a
/// handler that reports the step as pending. The same inputs give the same
/// text.
pub open spec fn snippet_text(keyword: Seq<char>, name: Seq<char>, arg_class: Option<Seq<char>>) -> Seq<
    char,
> {
    let heading = "// "@ + keyword + " "@ + name;
    let noted = match arg_class {
        Some(class) => heading + " ("@ + class + ")"@,
        None => heading,
    };
    noted + "\nregistry.register(\"^"@ + name
        + "$\", Vec::new(), Box::new(PendingStep::new()))?;\n"@
}

/// Whether `response`, with the world left as `after`, is what running `step`
/// on the world `before` with the arguments `args` can come to: the handler of
/// the step can report an outcome and leave that world, and the response
/// reports that outcome.
pub open spec fn step_answers<W>(
    step: StepView<W>,
    before: W,
    args: Seq<StepArgView>,
    response: ResponseView,
    after: W,
) -> bool {
    exists|outcome: StepOutcomeView|
        #[trigger] step_ran(step, before, args, outcome, after) && response == outcome_response(
            outcome,
        )
}

/// The response to a step that was run reports an outcome.
pub proof fn lemma_step_answer_reports<W>(
    step: StepView<W>,
    before: W,
    args: Seq<StepArgView>,
    response: ResponseView,
    after: W,
)
    requires
        step_answers(step, before, args, response, after),
    ensures
        reports_outcome(response),
{
}

/// What is owed in answer to a request, against the steps `steps` and the
/// world `before`: whether `response`, with the world left as `after`, is a
/// right answer.
///
/// A request to run a step is answered by running the step that its id
/// names, on the converted arguments: the response reports an outcome that
/// the handler of that step can have, with the world as that handler can
/// leave it. The start and the end of a scenario leave the world as it was,
/// or do to it what the world says they do. Every other request leaves the
/// world as it was and has exactly one right response.
pub open spec fn answers<W: World>(
    steps: Seq<StepView<W>>,
    before: W,
    request: RequestView,
    response: ResponseView,
    after: W,
) -> bool {
    match request {
        RequestView::BeginScenario => {
            &&& response == ResponseView::Success
            &&& before.begins(after) || after == before
        },
        RequestView::EndScenario => {
            &&& response == ResponseView::Success
            &&& before.ends(after) || after == before
        },
        RequestView::StepMatches { name_to_match } => {
            &&& response == ResponseView::StepMatches(
                matches_among(regexes_of(steps), name_to_match),
            )
            &&& after == before
        },
        RequestView::Invoke { id, args } => match invoke_plan(steps, id, args) {
            InvokePlan::Run { index, args: values } => step_answers(
                steps[index as int],
                before,
                values,
                response,
                after,
            ),
            InvokePlan::Refuse { response: refusal } => response == refusal && after == before,
        },
        RequestView::SnippetText { step_keyword, step_name, multiline_arg_class } => {
            &&& response == ResponseView::Snippet {
                snippet: snippet_text(step_keyword, step_name, multiline_arg_class),
            }
            &&& after == before
        },
    }
}

/// The id under which a step is listed names that step, and no other: among
/// `count` steps, an id is taken for the step at `index` exactly if it is the
/// id of that step.
pub proof fn lemma_id_names_its_step(count: nat, id: Seq<char>, index: nat)
    requires
        count <= usize::MAX,
    ensures
        step_index(count, id) == Some(index) <==> index < count && id == step_id(index),
{
    if index < count && id == step_id(index) {
        crate::text::lemma_numeral_round_trip(index as u64);
    }
    if step_index(count, id) == Some(index) {
        crate::text::lemma_numeral_decimal(id);
    }
}

/// Every match that is listed for a step name can be invoked: its id names
/// the step that matched, with the arguments that are listed.
pub proof fn lemma_match_can_be_invoked<W>(steps: Seq<StepView<W>>, name: Seq<char>, k: int)
    requires
        steps.len() <= usize::MAX,
        0 <= k < matches_among(regexes_of(steps), name).len(),
    ensures
        ({
            let found = matches_among(regexes_of(steps), name)[k];
            &&& step_index(steps.len(), found.id) is Some
            &&& step_match(steps[step_index(steps.len(), found.id).unwrap() as int].regex, name)
                == Some(found.args)
        }),
{
    let regexes = regexes_of(steps);
    let found = matches_among(regexes, name)[k];
    crate::registry::lemma_matches_are_of_steps(regexes, name);
    assert(crate::registry::has_step(regexes, name, found));
    let i = choose|i: int| crate::registry::is_match_of(regexes, name, i, found);
    lemma_id_names_its_step(steps.len(), found.id, i as nat);
}

/// A step name that matches no registered step is answered with the empty
/// list of matches: never with a failure, and the world is left as it was.
pub proof fn lemma_unmatched_name_is_answered<W: World>(
    steps: Seq<StepView<W>>,
    before: W,
    name: Seq<char>,
    response: ResponseView,
    after: W,
)
    requires
        answers(steps, before, RequestView::StepMatches { name_to_match: name }, response, after),
        forall|i: int| 0 <= i < steps.len() ==> step_match((#[trigger] steps[i]).regex, name) is None,
    ensures
        response == ResponseView::StepMatches(Seq::empty()),
        after == before,
{
    let regexes = regexes_of(steps);
    assert forall|i: int| 0 <= i < regexes.len() implies step_match(
        #[trigger] regexes[i],
        name,
    ) is None by {
        assert(regexes[i] == steps[i].regex);
    }
    crate::registry::lemma_no_match_is_empty(regexes, name);
}

/// A request to run a step under an id that names no registered step is
/// answered with a failure that has a message; no handler is called, and the
/// world is left as it was.
pub proof fn lemma_unknown_id_fails<W: World>(
    steps: Seq<StepView<W>>,
    before: W,
    id: Seq<char>,
    args: Seq<Seq<char>>,
    response: ResponseView,
    after: W,
)
    requires
        steps.len() <= usize::MAX,
        answers(steps, before, RequestView::Invoke { id, args }, response, after),
        forall|i: nat| i < steps.len() ==> id != #[trigger] step_id(i),
    ensures
        response == unknown_step_response(id),
        response is Fail,
        response->Fail_message.len() > 0,
        after == before,
{
    if step_index(steps.len(), id) is Some {
        let index = step_index(steps.len(), id).unwrap();
        lemma_id_names_its_step(steps.len(), id, index);
        assert(id == step_id(index));
    }
    reveal_strlit("no step is registered under the id ");
}

/// The response that reports the outcome of a step.
pub fn report(outcome: StepOutcome) -> (response: Response)
    ensures
        response@ == outcome_response(outcome@),
{
    match outcome {
        StepOutcome::Passed => Response::Success,
        StepOutcome::PassedWith { text } => Response::InvokeResult { text },
        StepOutcome::Failed { message, exception } => Response::Fail { message, exception },
        StepOutcome::Pending { message } => Response::Pending { message },
    }
}

/// The failure that answers an id that names no step.
pub fn unknown_step(id: &str) -> (response: Response)
    ensures
        response@ == unknown_step_response(id@),
{
    let message = String::from_str("no step is registered under the id ").concat(id);
    Response::Fail { message, exception: String::from_str("UnknownStep") }
}

/// The failure that answers arguments that cannot be handed to a step.
pub fn conversion_failure(error: ConversionError) -> (response: Response)
    ensures
        response@ == conversion_response(error),
{
    let mut message = String::new();
    match error {
        ConversionError::WrongCount { expected, given } => {
            message.append("the step takes ");
            push_decimal(&mut message, expected as u64);
            message.append(" argument(s), the request gives ");
            push_decimal(&mut message, given as u64);
            assert(message@ =~= conversion_message(error));
        },
        ConversionError::Invalid { index, kind } => {
            message.append("argument ");
            push_decimal(&mut message, index as u64);
            message.append(" is not of the kind ");
            match kind {
                ParamKind::Text => message.append("text"),
                ParamKind::Integer => message.append("integer"),
                ParamKind::Boolean => message.append("boolean"),
            }
            assert(message@ =~= conversion_message(error));
        },
    }
    Response::Fail { message, exception: String::from_str("ArgumentError") }
}

/// The skeleton for a step that is not defined yet.
pub fn snippet(keyword: &str, name: &str, arg_class: &Option<String>) -> (text: String)
    ensures
        text@ == snippet_text(keyword@, name@, crate::protocol::optional_text(*arg_class)),
{
    let mut text = String::from_str("// ");
    text.append(keyword);
    text.append(" ");
    text.append(name);
    match arg_class {
        Some(class) => {
            text.append(" (");
            text.append(class.as_str());
            text.append(")");
        },
        None => {},
    }
    text.append("\nregistry.register(\"^");
    text.append(name);
    text.append("$\", Vec::new(), Box::new(PendingStep::new()))?;\n");
    assert(text@ =~= snippet_text(keyword@, name@, crate::protocol::optional_text(*arg_class)));
    text
}

/// A handler for a step that is not written yet: it leaves the world as it
/// is and reports the step as pending.
pub struct PendingStep {
    message: String,
}

impl PendingStep {
    /// A handler that reports `TODO`.
    pub fn new() -> (step: Self)
        ensures
            step.message() == "TODO"@,
    {
        PendingStep { message: String::from_str("TODO") }
    }

    /// A handler that reports `message`.
    pub fn with_message(message: &str) -> (step: Self)
        ensures
            step.message() == message@,
    {
        PendingStep { message: message.to_owned() }
    }

    /// The message that the handler reports.
    pub closed spec fn message(&self) -> Seq<char> {
        self.message@
    }
}

impl<W> StepHandler<W> for PendingStep {
    open spec fn effect(
        &self,
        before: W,
        args: Seq<StepArgView>,
        outcome: StepOutcomeView,
        after: W,
    ) -> bool {
        outcome == (StepOutcomeView::Pending { message: self.message() }) && after == before
    }

    fn run(&self, world: &mut W, args: &Vec<StepArg>) -> (outcome: StepOutcome) {
        StepOutcome::Pending { message: self.message.clone() }
    }
}

/// The dispatch engine of one run: the world, which it owns, and the steps.
#[verifier::reject_recursive_types(W)]
pub struct WorldRunner<W> {
    world: W,
    registry: StepRegistry<W>,
}

/// What a request to run a step comes to, before any handler is called.
pub enum Prepared {
    /// The step at `index` is to be run on `args`.
    Run { index: usize, args: Vec<StepArg> },
    /// The request is refused with this response.
    Refuse { response: Response },
}

impl View for Prepared {
    type V = InvokePlan;

    open spec fn view(&self) -> InvokePlan {
        match self {
            Prepared::Run { index, args } => InvokePlan::Run {
                index: *index as nat,
                args: crate::args::step_args(args@),
            },
            Prepared::Refuse { response } => InvokePlan::Refuse { response: response@ },
        }
    }
}

impl<W: World> WorldRunner<W> {
    /// The world as it stands.
    pub closed spec fn world(&self) -> W {
        self.world
    }

    /// The registered steps.
    pub closed spec fn steps(&self) -> Seq<StepView<W>> {
        self.registry@
    }

    /// A runner that owns `world` and has no steps yet.
    pub fn new(world: W) -> (runner: Self)
        ensures
            runner.world() == world,
            runner.steps() == Seq::<StepView<W>>::empty(),
    {
        WorldRunner { world, registry: StepRegistry::new() }
    }

    /// A runner that owns `world` and dispatches to the steps of `registry`.
    pub fn with_registry(world: W, registry: StepRegistry<W>) -> (runner: Self)
        ensures
            runner.world() == world,
            runner.steps() == registry@,
    {
        WorldRunner { world, registry }
    }

    /// The world, to look at.
    pub fn world_ref(&self) -> (world: &W)
        ensures
            *world == self.world(),
    {
        &self.world
    }

    /// The steps, to look at.
    pub fn registry(&self) -> (registry: &StepRegistry<W>)
        ensures
            registry@ == self.steps(),
    {
        &self.registry
    }

    /// Registers a step, as `StepRegistry::register` does. Steps are
    /// registered before the first request is served.
    pub fn register(
        &mut self,
        pattern: &str,
        params: Vec<ParamKind>,
        handler: Box<dyn StepHandler<W>>,
    ) -> (r: Result<usize, InvalidPatternError>)
        ensures
            final(self).world() == old(self).world(),
            r is Ok <==> is_step_pattern(pattern@),
            match r {
                Ok(index) => {
                    &&& index == old(self).steps().len()
                    &&& final(self).steps().len() == index + 1
                    &&& final(self).steps().drop_last() == old(self).steps()
                    &&& final(self).steps().last().pattern == pattern@
                    &&& crate::pattern::regex_source(final(self).steps().last().regex) == anchored(
                        pattern@,
                    )
                    &&& final(self).steps().last().params == params@
                },
                Err(error) => final(self).steps() == old(self).steps() && error.pattern@
                    == pattern@,
            },
    {
        self.registry.register(pattern, params, handler)
    }

    /// What a request to run the step `id` on `args` comes to: which step is
    /// to be run on which values, or the failure that the request is refused
    /// with. No handler is called.
    pub fn prepare(&self, id: &str, args: &Vec<String>) -> (prepared: Prepared)
        ensures
            prepared@ == invoke_plan(self.steps(), id@, texts(args@)),
    {
        let index = match parse_numeral(id) {
            Some(n) => if n < self.registry.len() as u64 {
                n as usize
            } else {
                return Prepared::Refuse { response: unknown_step(id) };
            },
            None => {
                return Prepared::Refuse { response: unknown_step(id) };
            },
        };
        match self.registry.step(index) {
            None => Prepared::Refuse { response: unknown_step(id) },
            Some(step) => match convert_args(step.params(), args) {
                Ok(values) => Prepared::Run { index, args: values },
                Err(error) => Prepared::Refuse { response: conversion_failure(error) },
            },
        }
    }

    /// Runs the step `id` on `args` and reports its outcome. An id that names
    /// no step, and arguments that do not convert to the kinds that the step
    /// declares, are answered with a failure; the world is then left as it
    /// was, and no handler is called.
    pub fn invoke(&mut self, id: &str, args: &Vec<String>) -> (response: Response)
        ensures
            final(self).steps() == old(self).steps(),
            match invoke_plan(old(self).steps(), id@, texts(args@)) {
                InvokePlan::Run { index, args: values } => step_answers(
                    old(self).steps()[index as int],
                    old(self).world(),
                    values,
                    response@,
                    final(self).world(),
                ),
                InvokePlan::Refuse { response: refusal } => {
                    &&& response@ == refusal
                    &&& final(self).world() == old(self).world()
                },
            },
    {
        match self.prepare(id, args) {
            Prepared::Refuse { response } => response,
            Prepared::Run { index, args } => match self.registry.step(index) {
                Some(step) => {
                    let ghost before = self.world;
                    let outcome = step.run(&mut self.world, &args);
                    let ghost told = outcome@;
                    let response = report(outcome);
                    assert(step_ran(
                        old(self).steps()[index as int],
                        before,
                        crate::args::step_args(args@),
                        told,
                        self.world,
                    ));
                    response
                },
                None => unknown_step(id),
            },
        }
    }

    /// Answers one request. The registry is only read.
    pub fn execute_cmd(&mut self, request: Request) -> (response: Response)
        ensures
            final(self).steps() == old(self).steps(),
            answers(
                old(self).steps(),
                old(self).world(),
                request@,
                response@,
                final(self).world(),
            ),
    {
        match request {
            Request::BeginScenario => {
                self.world.begin_scenario();
                Response::Success
            },
            Request::EndScenario => {
                self.world.end_scenario();
                Response::Success
            },
            Request::StepMatches { name_to_match } => Response::StepMatches(
                self.registry.match_all(name_to_match.as_str()),
            ),
            Request::Invoke { id, args } => self.invoke(id.as_str(), &args),
            Request::SnippetText {
                step_keyword,
                step_name,
                multiline_arg_class,
            } => Response::Snippet {
                snippet: snippet(step_keyword.as_str(), step_name.as_str(), &multiline_arg_class),
            },
        }
    }
}

} // verus!
