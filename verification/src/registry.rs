//! The step registry: the steps of a run in the order of their registration,
//! and the matching of a step name against their patterns.

use crate::args::{step_args, ParamKind, StepArg, StepArgView};
use crate::pattern::{
    compile, error_text, groups_view, regex_captures, regex_compiles, regex_source, search,
    source_of, Groups,
};
use crate::step::{StepHandler, StepOutcome, StepOutcomeView};
use crate::text::{decimal, decimal_string, same_text};
use regex::Regex;
use vstd::prelude::*;
use vstd::string::StringExecFns;

verus! {

/// One argument of a match: the text that a capture group matched, and the
/// byte offset in the step name at which it starts.
#[derive(Clone, Debug, PartialEq, Eq)]
pub struct MatchArg {
    pub val: String,
    pub pos: usize,
}

/// The mathematical value of a `MatchArg`.
pub struct MatchArgView {
    pub val: Seq<char>,
    pub pos: usize,
}

impl View for MatchArg {
    type V = MatchArgView;

    open spec fn view(&self) -> MatchArgView {
        MatchArgView { val: self.val@, pos: self.pos }
    }
}

/// A step that matches a step name: its id and the arguments that its
/// capture groups take from the name.
#[derive(Clone, Debug, PartialEq, Eq)]
pub struct PendingMatch {
    pub id: String,
    pub args: Vec<MatchArg>,
}

/// The mathematical value of a `PendingMatch`.
pub struct PendingMatchView {
    pub id: Seq<char>,
    pub args: Seq<MatchArgView>,
}

/// The views of a vector of arguments.
pub open spec fn match_args(v: Seq<MatchArg>) -> Seq<MatchArgView> {
    v.map_values(|a: MatchArg| a@)
}

impl View for PendingMatch {
    type V = PendingMatchView;

    open spec fn view(&self) -> PendingMatchView {
        PendingMatchView { id: self.id@, args: match_args(self.args@) }
    }
}

/// The views of a vector of matches.
pub open spec fn pending_matches(v: Seq<PendingMatch>) -> Seq<PendingMatchView> {
    v.map_values(|m: PendingMatch| m@)
}

/// A pattern that is no regular expression.
#[derive(Clone, Debug, PartialEq, Eq)]
pub struct InvalidPatternError {
    /// The pattern as it was given.
    pub pattern: String,
    /// What the compiler of expressions says of it.
    pub reason: String,
}

/// The id under which the step registered at `index` is known to the driver:
/// the decimal numeral of the index.
pub open spec fn step_id(index: nat) -> Seq<char> {
    decimal(index)
}

/// The argument that one capture group gives. A group that took no part in
/// the match gives the empty text at offset 0, so that the arguments of a step
/// keep their places.
pub open spec fn group_arg(group: Option<(Seq<char>, usize)>) -> MatchArgView {
    match group {
        Some((val, pos)) => MatchArgView { val, pos },
        None => MatchArgView { val: Seq::empty(), pos: 0 },
    }
}

/// The offset at which a capture group starts, 0 for one that took no part.
pub open spec fn group_start(group: Option<(Seq<char>, usize)>) -> usize {
    match group {
        Some((_, pos)) => pos,
        None => 0,
    }
}

/// The arguments of a match of the whole of `text`: `None` where the search
/// found nothing, or found a match that is not all of `text`; else one
/// argument for each capture group after the whole match. The expression of
/// a step that is registered by its pattern stands between anchors, so what
/// it finds is all of `text`.
pub open spec fn full_match(found: Option<Seq<Option<(Seq<char>, usize)>>>, text: Seq<char>) -> Option<
    Seq<MatchArgView>,
> {
    match found {
        Some(groups) => if groups.len() >= 1 && groups[0] == Some((text, group_start(groups[0]))) {
            Some(Seq::new((groups.len() - 1) as nat, |i: int| group_arg(groups[i + 1])))
        } else {
            None
        },
        None => None,
    }
}

/// The arguments with which the expression `re` matches the whole of `text`,
/// if it does.
pub open spec fn step_match(re: Regex, text: Seq<char>) -> Option<Seq<MatchArgView>> {
    full_match(regex_captures(re, text), text)
}

/// The matches of `text` among the steps with the expressions `regexes`, in
/// the order of registration: one for each step whose expression matches the
/// whole of `text`, under the id of that step.
pub open spec fn matches_among(regexes: Seq<Regex>, text: Seq<char>) -> Seq<PendingMatchView>
    decreases regexes.len(),
{
    if regexes.len() == 0 {
        Seq::empty()
    } else {
        let earlier = matches_among(regexes.drop_last(), text);
        match step_match(regexes.last(), text) {
            Some(args) => earlier.push(
                PendingMatchView { id: step_id((regexes.len() - 1) as nat), args },
            ),
            None => earlier,
        }
    }
}

/// Whether `found` is the match of the step at `index` on `text`.
pub open spec fn is_match_of(
    regexes: Seq<Regex>,
    text: Seq<char>,
    index: int,
    found: PendingMatchView,
) -> bool {
    &&& 0 <= index < regexes.len()
    &&& found.id == step_id(index as nat)
    &&& step_match(regexes[index], text) == Some(found.args)
}

/// Whether `found` is the match of some registered step on `text`.
pub open spec fn has_step(regexes: Seq<Regex>, text: Seq<char>, found: PendingMatchView) -> bool {
    exists|i: int| is_match_of(regexes, text, i, found)
}

/// A step name that no step matches has no match: the list is empty.
pub proof fn lemma_no_match_is_empty(regexes: Seq<Regex>, text: Seq<char>)
    requires
        forall|i: int| 0 <= i < regexes.len() ==> step_match(#[trigger] regexes[i], text) is None,
    ensures
        matches_among(regexes, text) == Seq::<PendingMatchView>::empty(),
    decreases regexes.len(),
{
    if regexes.len() > 0 {
        let earlier = regexes.drop_last();
        assert forall|i: int| 0 <= i < earlier.len() implies step_match(
            #[trigger] earlier[i],
            text,
        ) is None by {
            assert(earlier[i] == regexes[i]);
        }
        lemma_no_match_is_empty(earlier, text);
        assert(step_match(regexes[regexes.len() - 1], text) is None);
    }
}

/// Every match in the list is the match of a registered step on the name:
/// nothing else is in it.
pub proof fn lemma_matches_are_of_steps(regexes: Seq<Regex>, text: Seq<char>)
    ensures
        forall|k: int|
            0 <= k < matches_among(regexes, text).len() ==> has_step(
                regexes,
                text,
                #[trigger] matches_among(regexes, text)[k],
            ),
    decreases regexes.len(),
{
    let found = matches_among(regexes, text);
    if regexes.len() > 0 {
        let earlier = regexes.drop_last();
        let before = matches_among(earlier, text);
        lemma_matches_are_of_steps(earlier, text);
        assert forall|k: int| 0 <= k < found.len() implies has_step(
            regexes,
            text,
            #[trigger] found[k],
        ) by {
            if k < before.len() {
                assert(found[k] == before[k]);
                assert(has_step(earlier, text, before[k]));
                let i = choose|i: int| is_match_of(earlier, text, i, before[k]);
                assert(earlier[i] == regexes[i]);
                assert(is_match_of(regexes, text, i, found[k]));
            } else {
                assert(is_match_of(regexes, text, regexes.len() - 1, found[k]));
            }
        }
    }
}

/// Every step whose expression matches the whole of the name has its match
/// in the list, under its own id.
pub proof fn lemma_matching_step_is_found(regexes: Seq<Regex>, text: Seq<char>, index: int)
    requires
        0 <= index < regexes.len(),
        step_match(regexes[index], text) is Some,
    ensures
        exists|k: int|
            0 <= k < matches_among(regexes, text).len() && is_match_of(
                regexes,
                text,
                index,
                #[trigger] matches_among(regexes, text)[k],
            ),
    decreases regexes.len(),
{
    let found = matches_among(regexes, text);
    let earlier = regexes.drop_last();
    let before = matches_among(earlier, text);
    if index == regexes.len() - 1 {
        let k = found.len() - 1;
        assert(is_match_of(regexes, text, index, found[k]));
    } else {
        assert(earlier[index] == regexes[index]);
        lemma_matching_step_is_found(earlier, text, index);
        let k = choose|k: int|
            0 <= k < before.len() && is_match_of(earlier, text, index, #[trigger] before[k]);
        assert(found[k] == before[k]);
        assert(is_match_of(regexes, text, index, found[k]));
    }
}

/// The list has at most one match for each step, and the matches stand in the
/// order in which their steps were registered.
pub proof fn lemma_matches_in_order(
    regexes: Seq<Regex>,
    text: Seq<char>,
    k1: int,
    k2: int,
    i1: int,
    i2: int,
)
    requires
        0 <= k1 < k2 < matches_among(regexes, text).len(),
        is_match_of(regexes, text, i1, matches_among(regexes, text)[k1]),
        is_match_of(regexes, text, i2, matches_among(regexes, text)[k2]),
    ensures
        i1 < i2,
    decreases regexes.len(),
{
    let found = matches_among(regexes, text);
    let earlier = regexes.drop_last();
    let before = matches_among(earlier, text);
    lemma_match_ids_are_earlier(earlier, text, k1, i1);
    if k2 < before.len() {
        assert(earlier[i1] == regexes[i1]);
        lemma_match_ids_are_earlier(earlier, text, k2, i2);
        assert(earlier[i2] == regexes[i2]);
        lemma_matches_in_order(earlier, text, k1, k2, i1, i2);
    } else {
        crate::text::lemma_decimal_injective(i2 as nat, (regexes.len() - 1) as nat);
    }
}

/// A match at place `k` of the list belongs to a step that is registered:
/// its id names no step beyond the list of expressions.
proof fn lemma_match_ids_are_earlier(regexes: Seq<Regex>, text: Seq<char>, k: int, index: int)
    requires
        0 <= k < matches_among(regexes, text).len(),
        matches_among(regexes, text)[k].id == step_id(index as nat),
        0 <= index,
    ensures
        index < regexes.len(),
    decreases regexes.len(),
{
    let earlier = regexes.drop_last();
    let before = matches_among(earlier, text);
    if k < before.len() {
        lemma_match_ids_are_earlier(earlier, text, k, index);
    } else {
        crate::text::lemma_decimal_injective(index as nat, (regexes.len() - 1) as nat);
    }
}

/// The arguments of a match of the whole of `text`, from what a search found.
pub fn whole_match(found: Option<Groups>, text: &str) -> (r: Option<Vec<MatchArg>>)
    ensures
        match r {
            Some(args) => full_match(groups_view(found), text@) == Some(match_args(args@)),
            None => full_match(groups_view(found), text@) is None,
        },
{
    let groups = match found {
        None => {
            return None;
        },
        Some(groups) => groups,
    };
    let ghost seen = groups_view(Some(groups)).unwrap();
    if groups.len() == 0 {
        return None;
    }
    let whole = match &groups[0] {
        None => {
            return None;
        },
        Some((whole, _)) => same_text(whole.as_str(), text),
    };
    assert(whole <==> seen[0] == Some((text@, group_start(seen[0]))));
    if !whole {
        return None;
    }
    let mut args: Vec<MatchArg> = Vec::new();
    let mut i: usize = 1;
    while i < groups.len()
        invariant
            1 <= i <= groups.len(),
            seen == groups_view(Some(groups)).unwrap(),
            args.len() == i - 1,
            forall|j: int| 0 <= j < args.len() ==> (#[trigger] args@[j])@ == group_arg(seen[j + 1]),
        decreases groups.len() - i,
    {
        let arg = match &groups[i] {
            Some((val, pos)) => MatchArg { val: val.clone(), pos: *pos },
            None => MatchArg { val: String::new(), pos: 0 },
        };
        args.push(arg);
        i += 1;
    }
    proof {
        assert(match_args(args@) =~= full_match(Some(seen), text@).unwrap());
    }
    Some(args)
}

/// The handler of a step, as the registry keeps it: `new` makes the action
/// that holds the handler given, and nothing else.
#[verifier::reject_recursive_types(W)]
struct StepAction<W> {
    handler: Box<dyn StepHandler<W>>,
}

impl<W> StepAction<W> {
    fn new(handler: Box<dyn StepHandler<W>>) -> (action: Self)
        ensures
            action == (StepAction { handler }),
    {
        StepAction { handler }
    }
}

/// A pattern as it is searched for: between an anchor at the start of the
/// text and one at its end, in a group that captures nothing. The groups of
/// the pattern keep their numbers, and a match is a match of the whole text,
/// whichever of the pattern's alternatives it takes.
pub open spec fn anchored(pattern: Seq<char>) -> Seq<char> {
    "\\A(?:"@ + pattern + ")\\z"@
}

/// Whether a step can be registered under a pattern: the pattern is a
/// regular expression as it stands, and between the anchors too.
pub open spec fn is_step_pattern(pattern: Seq<char>) -> bool {
    regex_compiles(pattern) && regex_compiles(anchored(pattern))
}

/// A registered step: its pattern, the expression that is searched for, the
/// kinds of its parameters, and its handler.
#[verifier::reject_recursive_types(W)]
pub struct StepDefinition<W> {
    pattern: String,
    regex: Regex,
    params: Vec<ParamKind>,
    action: StepAction<W>,
}

/// The mathematical value of a `StepDefinition`: its pattern, the expression
/// that is searched for, the kinds of its parameters, and what its handler
/// does, as the handler says it.
#[verifier::reject_recursive_types(W)]
pub struct StepView<W> {
    pub pattern: Seq<char>,
    pub regex: Regex,
    pub params: Seq<ParamKind>,
    pub effect: spec_fn(W, Seq<StepArgView>, StepOutcomeView, W) -> bool,
}

/// Whether the handler of `step`, run on the world `before` with the
/// arguments `args`, can report `outcome` and leave the world `after`.
pub open spec fn step_ran<W>(
    step: StepView<W>,
    before: W,
    args: Seq<StepArgView>,
    outcome: StepOutcomeView,
    after: W,
) -> bool {
    (step.effect)(before, args, outcome, after)
}

impl<W> View for StepDefinition<W> {
    type V = StepView<W>;

    closed spec fn view(&self) -> StepView<W> {
        StepView {
            pattern: self.pattern@,
            regex: self.regex,
            params: self.params@,
            effect: |before: W, args: Seq<StepArgView>, outcome: StepOutcomeView, after: W|
                self.action.handler.effect(before, args, outcome, after),
        }
    }
}

impl<W> StepDefinition<W> {
    /// The kinds of the step's parameters.
    pub fn params(&self) -> (r: &Vec<ParamKind>)
        ensures
            r@ == self@.params,
    {
        &self.params
    }

    /// Runs the step's handler on the world with the arguments given.
    /// Whatever the handler does to the world and reports is handed on.
    pub fn run(&self, world: &mut W, args: &Vec<StepArg>) -> (outcome: StepOutcome)
        ensures
            step_ran(self@, *old(world), step_args(args@), outcome@, *final(world)),
    {
        self.action.handler.run(world, args)
    }

    /// The pattern that the step was registered with, as it was given.
    pub fn pattern(&self) -> (r: &str)
        ensures
            r@ == self@.pattern,
    {
        self.pattern.as_str()
    }

    /// The pattern of the expression that is searched for.
    pub fn searched(&self) -> (r: &str)
        ensures
            r@ == regex_source(self@.regex),
    {
        source_of(&self.regex)
    }
}

/// The steps of a run. A step gets the next index when it is registered and
/// keeps it: steps are never removed, changed or reordered.
#[verifier::reject_recursive_types(W)]
pub struct StepRegistry<W> {
    steps: Vec<StepDefinition<W>>,
}

impl<W> View for StepRegistry<W> {
    type V = Seq<StepView<W>>;

    closed spec fn view(&self) -> Seq<StepView<W>> {
        self.steps@.map_values(|s: StepDefinition<W>| s@)
    }
}

/// The compiled expressions of a list of steps.
pub open spec fn regexes_of<W>(steps: Seq<StepView<W>>) -> Seq<Regex> {
    steps.map_values(|s: StepView<W>| s.regex)
}

impl<W> StepRegistry<W> {
    /// A registry without steps.
    pub fn new() -> (r: Self)
        ensures
            r@ == Seq::<StepView<W>>::empty(),
    {
        let r = StepRegistry { steps: Vec::new() };
        assert(r@ =~= Seq::<StepView<W>>::empty());
        r
    }

    /// The number of registered steps.
    pub fn len(&self) -> (n: usize)
        ensures
            n == self@.len(),
    {
        self.steps.len()
    }

    /// The step registered at `index`, if there is one.
    pub fn step(&self, index: usize) -> (r: Option<&StepDefinition<W>>)
        ensures
            match r {
                Some(step) => index < self@.len() && step@ == self@[index as int],
                None => index >= self@.len(),
            },
    {
        if index < self.steps.len() {
            Some(&self.steps[index])
        } else {
            None
        }
    }

    /// Adds a step under the next index, which is returned.
    fn push_step(
        &mut self,
        pattern: String,
        regex: Regex,
        params: Vec<ParamKind>,
        handler: Box<dyn StepHandler<W>>,
    ) -> (index: usize)
        ensures
            index == old(self)@.len(),
            final(self)@.len() == index + 1,
            final(self)@.drop_last() == old(self)@,
            final(self)@.last().pattern == pattern@,
            final(self)@.last().regex == regex,
            final(self)@.last().params == params@,
    {
        let index = self.steps.len();
        self.steps.push(
            StepDefinition { pattern, regex, params, action: StepAction::new(handler) },
        );
        assert(self@.drop_last() =~= old(self)@);
        index
    }

    /// Registers a step under an expression that is compiled already, and is
    /// searched for as it is: the step matches a name where the leftmost match
    /// of the expression is the whole of the name. The step gets the next
    /// index, which is returned; its pattern is that of the expression.
    pub fn add_compiled(
        &mut self,
        regex: Regex,
        params: Vec<ParamKind>,
        handler: Box<dyn StepHandler<W>>,
    ) -> (index: usize)
        ensures
            index == old(self)@.len(),
            final(self)@.len() == index + 1,
            final(self)@.drop_last() == old(self)@,
            final(self)@.last().pattern == regex_source(regex),
            final(self)@.last().regex == regex,
            final(self)@.last().params == params@,
    {
        let pattern = source_of(&regex).to_owned();
        self.push_step(pattern, regex, params, handler)
    }

    /// Registers a step. The pattern is compiled as it stands, and between
    /// the anchors; where both compile, the step is added under the next
    /// index, which is returned, and is searched for between the anchors. A
    /// pattern that does not compile is refused, and the registry stays as it
    /// was. Two steps may have the same pattern.
    pub fn register(
        &mut self,
        pattern: &str,
        params: Vec<ParamKind>,
        handler: Box<dyn StepHandler<W>>,
    ) -> (r: Result<usize, InvalidPatternError>)
        ensures
            r is Ok <==> is_step_pattern(pattern@),
            match r {
                Ok(index) => {
                    &&& index == old(self)@.len()
                    &&& final(self)@.len() == index + 1
                    &&& final(self)@.drop_last() == old(self)@
                    &&& final(self)@.last().pattern == pattern@
                    &&& regex_source(final(self)@.last().regex) == anchored(pattern@)
                    &&& final(self)@.last().params == params@
                },
                Err(error) => final(self)@ == old(self)@ && error.pattern@ == pattern@,
            },
    {
        match compile(pattern) {
            Err(error) => Err(
                InvalidPatternError { pattern: pattern.to_owned(), reason: error_text(&error) },
            ),
            Ok(_) => {
                let whole = String::from_str("\\A(?:").concat(pattern).concat(")\\z");
                match compile(whole.as_str()) {
                    Ok(regex) => {
                        let index = self.push_step(pattern.to_owned(), regex, params, handler);
                        Ok(index)
                    },
                    Err(error) => Err(
                        InvalidPatternError {
                            pattern: pattern.to_owned(),
                            reason: error_text(&error),
                        },
                    ),
                }
            },
        }
    }

    /// The steps that match the whole of `text`, in the order of their
    /// registration, each with its id and with the arguments that its capture
    /// groups take from `text`. No match is no error: the list is then empty.
    pub fn match_all(&self, text: &str) -> (found: Vec<PendingMatch>)
        ensures
            pending_matches(found@) == matches_among(regexes_of(self@), text@),
    {
        let ghost regexes = regexes_of(self@);
        let mut found: Vec<PendingMatch> = Vec::new();
        let mut i: usize = 0;
        proof {
            assert(regexes.take(0) =~= Seq::<Regex>::empty());
            assert(pending_matches(found@) =~= Seq::<PendingMatchView>::empty());
        }
        while i < self.steps.len()
            invariant
                i <= self.steps.len(),
                regexes == regexes_of(self@),
                regexes.len() == self.steps.len(),
                pending_matches(found@) == matches_among(regexes.take(i as int), text@),
            decreases self.steps.len() - i,
        {
            let ghost before = pending_matches(found@);
            proof {
                assert(regexes.take(i + 1).drop_last() =~= regexes.take(i as int));
                assert(regexes.take(i + 1).last() == self.steps@[i as int].regex);
            }
            match whole_match(search(&self.steps[i].regex, text), text) {
                Some(args) => {
                    let m = PendingMatch { id: decimal_string(i as u64), args };
                    found.push(m);
                    assert(pending_matches(found@) =~= before.push(m@));
                },
                None => {},
            }
            i += 1;
        }
        proof {
            assert(regexes.take(i as int) =~= regexes);
        }
        found
    }
}

} // verus!
