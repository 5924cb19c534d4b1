use cucumber::registry::whole_match;
use cucumber::runner::{conversion_failure, report, snippet, unknown_step, Prepared};
use cucumber::{
    ConversionError, MatchArg, ParamKind, PendingMatch, PendingStep, Request, Response, StepArg,
    StepHandler, StepOutcome, StepRegistry, World, WorldRunner,
};

#[derive(Debug, Default, PartialEq)]
struct Basket {
    cukes: i64,
    scenarios: u32,
    seen: Vec<String>,
}

impl World for Basket {
    fn begin_scenario(&mut self) {
        self.scenarios += 1;
        self.cukes = 0;
    }
}

struct Plain;

impl World for Plain {}

struct Have;

impl StepHandler<Basket> for Have {
    fn run(&self, world: &mut Basket, args: &Vec<StepArg>) -> StepOutcome {
        match args.as_slice() {
            [StepArg::Integer(n)] => {
                world.cukes = *n;
                StepOutcome::Passed
            }
            _ => StepOutcome::Failed {
                message: "one integer is expected".to_string(),
                exception: "Shape".to_string(),
            },
        }
    }
}

struct Count;

impl StepHandler<Basket> for Count {
    fn run(&self, world: &mut Basket, _args: &Vec<StepArg>) -> StepOutcome {
        StepOutcome::PassedWith { text: world.cukes.to_string() }
    }
}

struct Note;

impl StepHandler<Basket> for Note {
    fn run(&self, world: &mut Basket, args: &Vec<StepArg>) -> StepOutcome {
        for arg in args {
            world.seen.push(format!("{:?}", arg));
        }
        StepOutcome::Failed { message: "noted".to_string(), exception: "Note".to_string() }
    }
}

struct Nothing;

impl<W> StepHandler<W> for Nothing {
    fn run(&self, _world: &mut W, _args: &Vec<StepArg>) -> StepOutcome {
        StepOutcome::Passed
    }
}

fn arg(val: &str, pos: usize) -> MatchArg {
    MatchArg { val: val.to_string(), pos }
}

fn found(id: &str, args: Vec<MatchArg>) -> PendingMatch {
    PendingMatch { id: id.to_string(), args }
}

fn basket_runner() -> WorldRunner<Basket> {
    let mut runner = WorldRunner::new(Basket::default());
    assert_eq!(runner.register(r"^I have (\d+) cukes$", vec![ParamKind::Integer], Box::new(Have)), Ok(0));
    assert_eq!(runner.register(r"^I count my cukes$", vec![], Box::new(Count)), Ok(1));
    assert_eq!(
        runner.register(
            r"^I note (\w+), (-?\d+) and (true|false)$",
            vec![ParamKind::Text, ParamKind::Integer, ParamKind::Boolean],
            Box::new(Note)
        ),
        Ok(2)
    );
    assert_eq!(runner.register(r"^I wait$", vec![], Box::new(PendingStep::new())), Ok(3));
    runner
}

fn invoke(id: &str, args: &[&str]) -> Request {
    Request::Invoke { id: id.to_string(), args: args.iter().map(|a| a.to_string()).collect() }
}

#[test]
fn ids_follow_the_order_of_registration() {
    let mut registry: StepRegistry<Plain> = StepRegistry::new();
    assert_eq!(registry.len(), 0);
    assert_eq!(registry.register("^a$", vec![], Box::new(Nothing)), Ok(0));
    assert_eq!(registry.register("^b$", vec![ParamKind::Text], Box::new(Nothing)), Ok(1));
    assert_eq!(registry.register("^a$", vec![], Box::new(Nothing)), Ok(2));
    assert_eq!(registry.len(), 3);
    assert_eq!(registry.step(1).unwrap().pattern(), "^b$");
    assert_eq!(registry.step(1).unwrap().params(), &vec![ParamKind::Text]);
    assert_eq!(registry.step(2).unwrap().pattern(), "^a$");
    assert!(registry.step(3).is_none());
}

#[test]
fn a_pattern_that_does_not_compile_is_refused() {
    let mut registry: StepRegistry<Plain> = StepRegistry::new();
    assert_eq!(registry.register("^a$", vec![], Box::new(Nothing)), Ok(0));
    let error = registry.register("^I have (\\d+ cukes$", vec![], Box::new(Nothing)).unwrap_err();
    assert_eq!(error.pattern, "^I have (\\d+ cukes$");
    assert!(!error.reason.is_empty());
    assert_eq!(registry.len(), 1);
    assert_eq!(registry.register("^b$", vec![], Box::new(Nothing)), Ok(1));
}

#[test]
fn a_step_matches_its_own_pattern_with_the_captures_filled_in() {
    let mut registry: StepRegistry<Plain> = StepRegistry::new();
    registry.register(r"^I have (\d+) cukes in my (\w+)$", vec![], Box::new(Nothing)).unwrap();
    registry.register(r"^I eat (\d+) cukes$", vec![], Box::new(Nothing)).unwrap();
    registry.register(r"^my (\w+) is (empty|full)$", vec![], Box::new(Nothing)).unwrap();
    assert_eq!(
        registry.match_all("I have 12 cukes in my belly"),
        vec![found("0", vec![arg("12", 7), arg("belly", 22)])]
    );
    assert_eq!(registry.match_all("I eat 3 cukes"), vec![found("1", vec![arg("3", 6)])]);
    assert_eq!(
        registry.match_all("my basket is empty"),
        vec![found("2", vec![arg("basket", 3), arg("empty", 13)])]
    );
}

#[test]
fn every_matching_step_is_listed_in_order() {
    let mut registry: StepRegistry<Plain> = StepRegistry::new();
    registry.register(r"^I have (\d+) cukes$", vec![], Box::new(Nothing)).unwrap();
    registry.register(r"^I eat them$", vec![], Box::new(Nothing)).unwrap();
    registry.register(r"^I have (.*)$", vec![], Box::new(Nothing)).unwrap();
    registry.register(r"^I have (\d+) cukes$", vec![], Box::new(Nothing)).unwrap();
    assert_eq!(
        registry.match_all("I have 5 cukes"),
        vec![
            found("0", vec![arg("5", 7)]),
            found("2", vec![arg("5 cukes", 7)]),
            found("3", vec![arg("5", 7)]),
        ]
    );
}

#[test]
fn no_match_is_an_empty_list() {
    let mut registry: StepRegistry<Plain> = StepRegistry::new();
    assert_eq!(registry.match_all("anything"), vec![]);
    registry.register(r"^I have (\d+) cukes$", vec![], Box::new(Nothing)).unwrap();
    assert_eq!(registry.match_all("I have five cukes"), vec![]);
    assert_eq!(registry.match_all(""), vec![]);
}

#[test]
fn only_a_match_of_the_whole_name_counts() {
    let mut registry: StepRegistry<Plain> = StepRegistry::new();
    registry.register(r"cukes", vec![], Box::new(Nothing)).unwrap();
    registry.register(r"I have (\d+) cukes", vec![], Box::new(Nothing)).unwrap();
    registry.register(r"", vec![], Box::new(Nothing)).unwrap();
    assert_eq!(registry.match_all("I have 5 cukes"), vec![found("1", vec![arg("5", 7)])]);
    assert_eq!(registry.match_all("I have 5 cukes today"), vec![]);
    assert_eq!(registry.match_all("cukes"), vec![found("0", vec![])]);
    assert_eq!(registry.match_all(""), vec![found("2", vec![])]);
}

#[test]
fn offsets_are_counted_in_bytes() {
    let mut registry: StepRegistry<Plain> = StepRegistry::new();
    registry.register(r"^é€ (\w+) 😀 (\d+)$", vec![], Box::new(Nothing)).unwrap();
    assert_eq!(
        registry.match_all("é€ abc 😀 42"),
        vec![found("0", vec![arg("abc", 6), arg("42", 15)])]
    );
}

#[test]
fn a_group_that_took_no_part_keeps_its_place() {
    let mut registry: StepRegistry<Plain> = StepRegistry::new();
    registry.register(r"^(?:(\d+)|(\w+)) cukes(!)?$", vec![], Box::new(Nothing)).unwrap();
    assert_eq!(
        registry.match_all("some cukes"),
        vec![found("0", vec![arg("", 0), arg("some", 0), arg("", 0)])]
    );
    assert_eq!(
        registry.match_all("12 cukes!"),
        vec![found("0", vec![arg("12", 0), arg("", 0), arg("!", 8)])]
    );
}

#[test]
fn the_arguments_of_a_search_result() {
    let groups = vec![
        Some(("I have 5".to_string(), 0)),
        Some(("5".to_string(), 7)),
        None,
    ];
    assert_eq!(whole_match(Some(groups.clone()), "I have 5"), Some(vec![arg("5", 7), arg("", 0)]));
    assert_eq!(whole_match(Some(groups.clone()), "I have 5 cukes"), None);
    assert_eq!(whole_match(Some(groups), "X have 5"), None);
    assert_eq!(whole_match(None, "I have 5"), None);
    assert_eq!(whole_match(Some(vec![]), ""), None);
    assert_eq!(whole_match(Some(vec![None]), ""), None);
    assert_eq!(whole_match(Some(vec![Some((String::new(), 0))]), ""), Some(vec![]));
}

#[test]
fn scenarios_begin_and_end_with_success() {
    let mut runner = basket_runner();
    assert_eq!(runner.execute_cmd(invoke("0", &["5"])), Response::Success);
    assert_eq!(runner.world_ref().cukes, 5);
    assert_eq!(runner.execute_cmd(Request::BeginScenario), Response::Success);
    assert_eq!(runner.world_ref().scenarios, 1);
    assert_eq!(runner.world_ref().cukes, 0);
    assert_eq!(runner.execute_cmd(Request::EndScenario), Response::Success);
    assert_eq!(runner.execute_cmd(Request::BeginScenario), Response::Success);
    assert_eq!(runner.world_ref().scenarios, 2);
    assert_eq!(runner.registry().len(), 4);
}

#[test]
fn step_matches_lists_the_matches() {
    let mut runner = basket_runner();
    assert_eq!(
        runner.execute_cmd(Request::StepMatches { name_to_match: "I have 5 cukes".to_string() }),
        Response::StepMatches(vec![found("0", vec![arg("5", 7)])])
    );
    assert_eq!(
        runner.execute_cmd(Request::StepMatches { name_to_match: "I do not exist".to_string() }),
        Response::StepMatches(vec![])
    );
    assert_eq!(runner.world_ref(), &Basket::default());
}

#[test]
fn invoke_runs_the_step_on_converted_arguments() {
    let mut runner = basket_runner();
    assert_eq!(runner.execute_cmd(invoke("0", &["5"])), Response::Success);
    assert_eq!(runner.world_ref().cukes, 5);
    assert_eq!(
        runner.execute_cmd(invoke("1", &[])),
        Response::InvokeResult { text: "5".to_string() }
    );
    assert_eq!(
        runner.execute_cmd(invoke("2", &["red", "-7", "false"])),
        Response::Fail { message: "noted".to_string(), exception: "Note".to_string() }
    );
    assert_eq!(
        runner.world_ref().seen,
        vec!["Text(\"red\")".to_string(), "Integer(-7)".to_string(), "Boolean(false)".to_string()]
    );
    assert_eq!(runner.execute_cmd(invoke("3", &[])), Response::Pending { message: "TODO".to_string() });
}

#[test]
fn invoke_with_an_unknown_id_fails() {
    let mut runner = basket_runner();
    for id in ["bogus", "4", "99", "", "-1", "00", "01", " 1", "1 ", "18446744073709551616"] {
        let response = runner.execute_cmd(invoke(id, &[]));
        assert_eq!(
            response,
            Response::Fail {
                message: format!("no step is registered under the id {}", id),
                exception: "UnknownStep".to_string(),
            }
        );
    }
    assert_eq!(runner.world_ref(), &Basket::default());
    assert_eq!(runner.execute_cmd(invoke("0", &["5"])), Response::Success);
}

#[test]
fn arguments_that_do_not_convert_fail_the_step() {
    let mut runner = basket_runner();
    assert_eq!(
        runner.execute_cmd(invoke("0", &["five"])),
        Response::Fail {
            message: "argument 0 is not of the kind integer".to_string(),
            exception: "ArgumentError".to_string(),
        }
    );
    assert_eq!(
        runner.execute_cmd(invoke("2", &["red", "7", "maybe"])),
        Response::Fail {
            message: "argument 2 is not of the kind boolean".to_string(),
            exception: "ArgumentError".to_string(),
        }
    );
    assert_eq!(
        runner.execute_cmd(invoke("0", &[])),
        Response::Fail {
            message: "the step takes 1 argument(s), the request gives 0".to_string(),
            exception: "ArgumentError".to_string(),
        }
    );
    assert_eq!(
        runner.execute_cmd(invoke("1", &["5", "6"])),
        Response::Fail {
            message: "the step takes 0 argument(s), the request gives 2".to_string(),
            exception: "ArgumentError".to_string(),
        }
    );
    assert_eq!(runner.world_ref(), &Basket::default());
}

#[test]
fn prepare_calls_no_handler() {
    let runner = basket_runner();
    match runner.prepare("2", &vec!["red".to_string(), "7".to_string(), "true".to_string()]) {
        Prepared::Run { index, args } => {
            assert_eq!(index, 2);
            assert_eq!(
                args,
                vec![StepArg::Text("red".to_string()), StepArg::Integer(7), StepArg::Boolean(true)]
            );
        }
        Prepared::Refuse { .. } => panic!("the step is to be run"),
    }
    match runner.prepare("7", &vec![]) {
        Prepared::Refuse { response } => assert_eq!(response, unknown_step("7")),
        Prepared::Run { .. } => panic!("no step has this id"),
    }
    assert!(runner.world_ref().seen.is_empty());
}

#[test]
fn outcomes_are_reported() {
    assert_eq!(report(StepOutcome::Passed), Response::Success);
    assert_eq!(
        report(StepOutcome::PassedWith { text: "t".to_string() }),
        Response::InvokeResult { text: "t".to_string() }
    );
    assert_eq!(
        report(StepOutcome::Failed { message: "m".to_string(), exception: "e".to_string() }),
        Response::Fail { message: "m".to_string(), exception: "e".to_string() }
    );
    assert_eq!(
        report(StepOutcome::Pending { message: "p".to_string() }),
        Response::Pending { message: "p".to_string() }
    );
}

#[test]
fn failures_have_their_messages() {
    assert_eq!(
        conversion_failure(ConversionError::WrongCount { expected: 12, given: 3 }),
        Response::Fail {
            message: "the step takes 12 argument(s), the request gives 3".to_string(),
            exception: "ArgumentError".to_string(),
        }
    );
    assert_eq!(
        conversion_failure(ConversionError::Invalid { index: 10, kind: ParamKind::Text }),
        Response::Fail {
            message: "argument 10 is not of the kind text".to_string(),
            exception: "ArgumentError".to_string(),
        }
    );
}

#[test]
fn snippets_are_the_same_for_the_same_inputs() {
    let expected = "// Given I have 5 cukes\nregistry.register(\"^I have 5 cukes$\", Vec::new(), Box::new(PendingStep::new()))?;\n";
    assert_eq!(snippet("Given", "I have 5 cukes", &None), expected);
    assert_eq!(snippet("Given", "I have 5 cukes", &None), expected);
    assert_eq!(
        snippet("When", "I eat", &Some("Cucumber::Ast::Table".to_string())),
        "// When I eat (Cucumber::Ast::Table)\nregistry.register(\"^I eat$\", Vec::new(), Box::new(PendingStep::new()))?;\n"
    );
    let mut runner = basket_runner();
    assert_eq!(
        runner.execute_cmd(Request::SnippetText {
            step_keyword: "Given".to_string(),
            step_name: "I have 5 cukes".to_string(),
            multiline_arg_class: None,
        }),
        Response::Snippet { snippet: expected.to_string() }
    );
}

#[test]
fn a_pending_step_reports_its_message() {
    let mut world = Plain;
    assert_eq!(
        PendingStep::new().run(&mut world, &vec![]),
        StepOutcome::Pending { message: "TODO".to_string() }
    );
    assert_eq!(
        PendingStep::with_message("later").run(&mut world, &vec![StepArg::Boolean(true)]),
        StepOutcome::Pending { message: "later".to_string() }
    );
}

#[test]
fn a_match_may_take_any_alternative_of_the_pattern() {
    let mut registry: StepRegistry<Plain> = StepRegistry::new();
    registry.register("sam|samwise", vec![], Box::new(Nothing)).unwrap();
    registry.register("(sam|samwise) (walks|walks on)", vec![], Box::new(Nothing)).unwrap();
    assert_eq!(registry.match_all("samwise"), vec![found("0", vec![])]);
    assert_eq!(registry.match_all("sam"), vec![found("0", vec![])]);
    assert_eq!(registry.match_all("samwis"), vec![]);
    assert_eq!(registry.match_all("a samwise"), vec![]);
    assert_eq!(
        registry.match_all("samwise walks on"),
        vec![found("1", vec![arg("samwise", 0), arg("walks on", 8)])]
    );
}

#[test]
fn a_step_keeps_the_pattern_it_was_given() {
    let mut registry: StepRegistry<Plain> = StepRegistry::new();
    registry.register(r"I have (\d+) cukes", vec![], Box::new(Nothing)).unwrap();
    let step = registry.step(0).unwrap();
    assert_eq!(step.pattern(), r"I have (\d+) cukes");
    assert_eq!(step.searched(), r"\A(?:I have (\d+) cukes)\z");
}

#[test]
fn a_pattern_must_compile_as_it_stands_and_between_the_anchors() {
    let mut registry: StepRegistry<Plain> = StepRegistry::new();
    for bad in ["(", ")", "a)(?:b", "[a", "a{2,1}", "(?x) a # the rest is a comment"] {
        let error = registry.register(bad, vec![], Box::new(Nothing)).unwrap_err();
        assert_eq!(error.pattern, bad, "{}", bad);
        assert_eq!(registry.len(), 0);
    }
    assert_eq!(registry.register("(?x) a b # a comment\n", vec![], Box::new(Nothing)), Ok(0));
    assert_eq!(registry.match_all("ab"), vec![found("0", vec![])]);
    assert_eq!(registry.register("(?i)cukes", vec![], Box::new(Nothing)), Ok(1));
    assert_eq!(registry.match_all("CUKES"), vec![found("1", vec![])]);
}

#[test]
fn an_expression_that_is_compiled_already_is_searched_for_as_it_is() {
    let mut registry: StepRegistry<Plain> = StepRegistry::new();
    let index = registry.add_compiled(regex::Regex::new("sam|samwise").unwrap(), vec![], Box::new(Nothing));
    assert_eq!(index, 0);
    assert_eq!(registry.step(0).unwrap().pattern(), "sam|samwise");
    assert_eq!(registry.step(0).unwrap().searched(), "sam|samwise");
    assert_eq!(registry.match_all("sam"), vec![found("0", vec![])]);
    assert_eq!(registry.match_all("samwise"), vec![]);
    let anchored = regex::Regex::new("^(?:sam|samwise)$").unwrap();
    assert_eq!(registry.add_compiled(anchored, vec![], Box::new(Nothing)), 1);
    assert_eq!(registry.match_all("samwise"), vec![found("1", vec![])]);
}

#[test]
fn plain_values_are_worlds() {
    let mut runner = WorldRunner::new(7u32);
    runner.register("^x$", vec![], Box::new(Nothing)).unwrap();
    assert_eq!(runner.execute_cmd(Request::BeginScenario), Response::Success);
    assert_eq!(runner.execute_cmd(invoke("0", &[])), Response::Success);
    assert_eq!(runner.execute_cmd(Request::EndScenario), Response::Success);
    assert_eq!(*runner.world_ref(), 7);
    let mut text = WorldRunner::new(String::from("w"));
    assert_eq!(text.execute_cmd(Request::BeginScenario), Response::Success);
    assert_eq!(text.world_ref(), "w");
}
