//! The server's life: listening, serving one session at a time, and
//! stopping.
//!
//! Waiting for a connection, reading a line and writing one are left to the
//! caller. What is decided here is what each of these events leads to: the
//! caller reports an event and is told what to do next.

use crate::args::{texts, StepArgView};
use crate::protocol::{RequestView, ResponseView};
use crate::registry::{step_ran, StepView};
use crate::runner::{answers, invoke_plan, outcome_response, WorldRunner};
use crate::step::{StepOutcomeView, World};
use crate::wire::{line_request, read_request, response_line, write_response};
use vstd::prelude::*;

verus! {

/// What the server is doing.
#[derive(Clone, Copy, Debug, PartialEq, Eq, Structural)]
pub enum Phase {
    /// No session is open; the next connection is awaited.
    Listening,
    /// A session is open; its next line is awaited.
    Serving,
    /// The server has stopped for good.
    Stopped,
}

/// Where the server stands: what it is doing, and whether it has been asked
/// to stop.
#[derive(Clone, Copy, Debug, PartialEq, Eq, Structural)]
pub struct Lifecycle {
    pub phase: Phase,
    pub stop_requested: bool,
}

/// What can happen to the server.
#[derive(Clone, Debug, PartialEq, Eq)]
pub enum ServerEvent {
    /// A driver has connected.
    Connected,
    /// The open session has delivered a line.
    Line(String),
    /// The driver has closed the open session, or the session has broken.
    PeerClosed,
    /// The owner has asked the server to stop.
    StopRequested,
    /// The owner has dropped the handle by which it could ask the server to
    /// stop. This counts as having asked.
    StopHandleDropped,
}

/// The mathematical value of a `ServerEvent`.
pub enum EventView {
    Connected,
    Line(Seq<char>),
    PeerClosed,
    StopRequested,
    StopHandleDropped,
}

impl View for ServerEvent {
    type V = EventView;

    open spec fn view(&self) -> EventView {
        match self {
            ServerEvent::Connected => EventView::Connected,
            ServerEvent::Line(line) => EventView::Line(line@),
            ServerEvent::PeerClosed => EventView::PeerClosed,
            ServerEvent::StopRequested => EventView::StopRequested,
            ServerEvent::StopHandleDropped => EventView::StopHandleDropped,
        }
    }
}

/// What the caller is to do next.
#[derive(Clone, Debug, PartialEq, Eq)]
pub enum ServerAction {
    /// Close the session that is open, if one is, and wait for the next
    /// connection.
    Accept,
    /// Wait for the next line of the open session.
    Read,
    /// Send this line on the open session, then wait for its next line.
    Reply(String),
    /// Close the session that is open, if one is, and leave.
    Exit,
}

/// The mathematical value of a `ServerAction`.
pub enum ActionView {
    Accept,
    Read,
    Reply(Seq<char>),
    Exit,
}

impl View for ServerAction {
    type V = ActionView;

    open spec fn view(&self) -> ActionView {
        match self {
            ServerAction::Accept => ActionView::Accept,
            ServerAction::Read => ActionView::Read,
            ServerAction::Reply(line) => ActionView::Reply(line@),
            ServerAction::Exit => ActionView::Exit,
        }
    }
}

/// Where a server starts: listening, and not asked to stop.
pub open spec fn initial() -> Lifecycle {
    Lifecycle { phase: Phase::Listening, stop_requested: false }
}

/// Where the server stands when a session has ended: stopped if it has been
/// asked to stop, else listening again.
pub open spec fn after_session(state: Lifecycle) -> Lifecycle {
    Lifecycle {
        phase: if state.stop_requested {
            Phase::Stopped
        } else {
            Phase::Listening
        },
        stop_requested: state.stop_requested,
    }
}

/// Where the server stands after an event.
///
/// A request to stop is only noted: the session that is open goes on, and a
/// server that is listening serves one more session. A session ends when the
/// driver closes it, and when a line carries no request; no response is sent
/// for such a line. An event that cannot happen where the server stands
/// changes nothing.
pub open spec fn next_lifecycle(state: Lifecycle, event: EventView) -> Lifecycle {
    match event {
        EventView::StopRequested => Lifecycle { phase: state.phase, stop_requested: true },
        EventView::StopHandleDropped => Lifecycle { phase: state.phase, stop_requested: true },
        EventView::Connected => if state.phase == Phase::Listening {
            Lifecycle { phase: Phase::Serving, stop_requested: state.stop_requested }
        } else {
            state
        },
        EventView::PeerClosed => if state.phase == Phase::Serving {
            after_session(state)
        } else {
            state
        },
        EventView::Line(line) => if state.phase == Phase::Serving && line_request(line) is None {
            after_session(state)
        } else {
            state
        },
    }
}

/// What a server does that has nothing to send.
pub open spec fn awaited(state: Lifecycle) -> ActionView {
    match state.phase {
        Phase::Listening => ActionView::Accept,
        Phase::Serving => ActionView::Read,
        Phase::Stopped => ActionView::Exit,
    }
}

/// Where the server stands after the lines `lines`, one after the other.
pub open spec fn after_lines(state: Lifecycle, lines: Seq<Seq<char>>) -> Lifecycle
    decreases lines.len(),
{
    if lines.len() == 0 {
        state
    } else {
        next_lifecycle(after_lines(state, lines.drop_last()), EventView::Line(lines.last()))
    }
}

/// A request to stop is never forgotten.
pub proof fn lemma_stop_is_kept(state: Lifecycle, event: EventView)
    requires
        state.stop_requested,
    ensures
        next_lifecycle(state, event).stop_requested,
{
}

/// A request to stop, by word or by dropping the handle, ends no session and
/// no wait: the server goes on with what it was doing.
pub proof fn lemma_stop_aborts_nothing(state: Lifecycle)
    ensures
        next_lifecycle(state, EventView::StopRequested).phase == state.phase,
        next_lifecycle(state, EventView::StopHandleDropped) == next_lifecycle(
            state,
            EventView::StopRequested,
        ),
{
}

/// A server that has stopped stays stopped, whatever happens.
pub proof fn lemma_stopped_for_good(state: Lifecycle, event: EventView)
    requires
        state.phase == Phase::Stopped,
    ensures
        next_lifecycle(state, event).phase == Phase::Stopped,
        awaited(next_lifecycle(state, event)) == ActionView::Exit,
{
}

/// One session at a time: while a session is open, a connection changes
/// nothing.
pub proof fn lemma_one_session(state: Lifecycle)
    requires
        state.phase == Phase::Serving,
    ensures
        next_lifecycle(state, EventView::Connected) == state,
{
}

/// Without a request to stop, the end of a session leads back to listening.
pub proof fn lemma_listens_again(state: Lifecycle)
    requires
        state.phase == Phase::Serving,
        !state.stop_requested,
    ensures
        next_lifecycle(state, EventView::PeerClosed) == initial(),
{
}

/// While a session is open and the server is asked to stop, lines leave it
/// serving or stop it: it does not listen again.
pub proof fn lemma_lines_of_last_session(state: Lifecycle, lines: Seq<Seq<char>>)
    requires
        state.stop_requested,
        state.phase != Phase::Listening,
    ensures
        after_lines(state, lines).stop_requested,
        after_lines(state, lines).phase != Phase::Listening,
    decreases lines.len(),
{
    if lines.len() > 0 {
        lemma_lines_of_last_session(state, lines.drop_last());
    }
}

/// A server that is asked to stop while it listens serves one more session,
/// whatever lines that session delivers, and stops when the session ends:
/// what it then does is to leave.
pub proof fn lemma_stops_after_next_session(state: Lifecycle, lines: Seq<Seq<char>>)
    requires
        state.phase == Phase::Listening,
    ensures
        ({
            let asked = next_lifecycle(state, EventView::StopRequested);
            let open = next_lifecycle(asked, EventView::Connected);
            let closed = next_lifecycle(after_lines(open, lines), EventView::PeerClosed);
            &&& asked.phase == Phase::Listening
            &&& open.phase == Phase::Serving
            &&& closed.phase == Phase::Stopped
            &&& awaited(closed) == ActionView::Exit
        }),
{
    let asked = next_lifecycle(state, EventView::StopRequested);
    let open = next_lifecycle(asked, EventView::Connected);
    lemma_lines_of_last_session(open, lines);
}

/// A server that is asked to stop while a session is open stops when that
/// session ends.
pub proof fn lemma_stops_after_open_session(state: Lifecycle, lines: Seq<Seq<char>>)
    requires
        state.phase == Phase::Serving,
    ensures
        ({
            let asked = next_lifecycle(state, EventView::StopRequested);
            let closed = next_lifecycle(after_lines(asked, lines), EventView::PeerClosed);
            &&& asked.phase == Phase::Serving
            &&& closed.phase == Phase::Stopped
        }),
{
    let asked = next_lifecycle(state, EventView::StopRequested);
    lemma_lines_of_last_session(asked, lines);
}

/// What is owed of the handling of an event. A line that carries a request,
/// on an open session, is answered with the line of a response that is a
/// right answer to the request. Nothing else touches the world, and what is
/// to be done then is what the server waits for.
pub open spec fn handled<W: World>(
    steps: Seq<StepView<W>>,
    state: Lifecycle,
    before: W,
    event: EventView,
    action: ActionView,
    after: W,
) -> bool {
    if event is Line && state.phase == Phase::Serving && line_request(event->Line_0) is Some {
        exists|response: ResponseView|
            {
                &&& answers(steps, before, line_request(event->Line_0)->0, response, after)
                &&& action == ActionView::Reply(#[trigger] response_line(response))
            }
    } else {
        after == before && action == awaited(next_lifecycle(state, event))
    }
}

/// Whether a line asks for a step to be run, and a step is run for it: the
/// line carries a request to run a step, its id names one of `steps`, and its
/// arguments convert to the kinds that the step declares.
pub open spec fn runs_step<W>(steps: Seq<StepView<W>>, line: Seq<char>) -> bool {
    match line_request(line) {
        Some(RequestView::Invoke { id, args }) => invoke_plan(steps, id, args) is Run,
        _ => false,
    }
}

/// The step that is run for a line that asks for one.
pub open spec fn step_run_by<W>(steps: Seq<StepView<W>>, line: Seq<char>) -> StepView<W> {
    let request = line_request(line)->0;
    steps[invoke_plan(steps, request->Invoke_id, request->Invoke_args)->index as int]
}

/// The arguments on which the step is run for a line that asks for one.
pub open spec fn args_run_by<W>(steps: Seq<StepView<W>>, line: Seq<char>) -> Seq<StepArgView> {
    let request = line_request(line)->0;
    invoke_plan(steps, request->Invoke_id, request->Invoke_args)->Run_args
}

/// What is owed of the handling of the lines of a session, one after the
/// other: each line is handled where the lines before it left the server,
/// and against the world as the response to the line before it left it.
pub open spec fn lines_handled<W: World>(
    steps: Seq<StepView<W>>,
    state: Lifecycle,
    before: W,
    lines: Seq<Seq<char>>,
    actions: Seq<ActionView>,
    after: W,
) -> bool
    decreases lines.len(),
{
    if lines.len() == 0 {
        actions.len() == 0 && after == before
    } else {
        &&& actions.len() == lines.len()
        &&& exists|between: W|
            {
                &&& lines_handled(
                    steps,
                    state,
                    before,
                    lines.drop_last(),
                    actions.drop_last(),
                    between,
                )
                &&& #[trigger] handled(
                    steps,
                    after_lines(state, lines.drop_last()),
                    between,
                    EventView::Line(lines.last()),
                    actions.last(),
                    after,
                )
            }
    }
}

/// The views of a list of actions.
pub open spec fn actions_view(actions: Seq<ServerAction>) -> Seq<ActionView> {
    actions.map_values(|a: ServerAction| a@)
}

/// Requests are served one after the other: of two lines, the second is
/// handled against the world as the first left it, and where the first left
/// the server.
pub proof fn lemma_second_line_sees_first<W: World>(
    steps: Seq<StepView<W>>,
    state: Lifecycle,
    before: W,
    first: Seq<char>,
    second: Seq<char>,
    actions: Seq<ActionView>,
    after: W,
)
    requires
        lines_handled(steps, state, before, seq![first, second], actions, after),
    ensures
        actions.len() == 2,
        exists|between: W|
            {
                &&& #[trigger] handled(
                    steps,
                    state,
                    before,
                    EventView::Line(first),
                    actions[0],
                    between,
                )
                &&& handled(
                    steps,
                    next_lifecycle(state, EventView::Line(first)),
                    between,
                    EventView::Line(second),
                    actions[1],
                    after,
                )
            },
{
    let both = seq![first, second];
    let one = both.drop_last();
    assert(one =~= seq![first]);
    assert(one.drop_last() =~= Seq::<Seq<char>>::empty());
    assert(after_lines(state, one.drop_last()) == state);
    assert(after_lines(state, one) == next_lifecycle(state, EventView::Line(first)));
    let between = choose|between: W|
        {
            &&& lines_handled(steps, state, before, one, actions.drop_last(), between)
            &&& #[trigger] handled(
                steps,
                after_lines(state, one),
                between,
                EventView::Line(both.last()),
                actions.last(),
                after,
            )
        };
    let start = choose|start: W|
        {
            &&& lines_handled(
                steps,
                state,
                before,
                one.drop_last(),
                actions.drop_last().drop_last(),
                start,
            )
            &&& #[trigger] handled(
                steps,
                after_lines(state, one.drop_last()),
                start,
                EventView::Line(one.last()),
                actions.drop_last().last(),
                between,
            )
        };
    assert(start == before);
    assert(actions.drop_last().last() == actions[0]);
    assert(handled(steps, state, before, EventView::Line(first), actions[0], between));
}

/// Steps are run one after the other: where two lines of a session ask for
/// two steps to be run, the handler of the second runs on the world as the
/// handler of the first left it, and the two responses report the outcomes
/// of the two handlers, in the order of the lines.
pub proof fn lemma_second_step_runs_on_world_of_first<W: World>(
    steps: Seq<StepView<W>>,
    state: Lifecycle,
    before: W,
    first: Seq<char>,
    second: Seq<char>,
    actions: Seq<ActionView>,
    after: W,
)
    requires
        state.phase == Phase::Serving,
        lines_handled(steps, state, before, seq![first, second], actions, after),
        runs_step(steps, first),
        runs_step(steps, second),
    ensures
        actions.len() == 2,
        exists|between: W, told: StepOutcomeView, told_next: StepOutcomeView|
            {
                &&& #[trigger] step_ran(
                    step_run_by(steps, first),
                    before,
                    args_run_by(steps, first),
                    told,
                    between,
                )
                &&& #[trigger] step_ran(
                    step_run_by(steps, second),
                    between,
                    args_run_by(steps, second),
                    told_next,
                    after,
                )
                &&& actions[0] == ActionView::Reply(response_line(outcome_response(told)))
                &&& actions[1] == ActionView::Reply(response_line(outcome_response(told_next)))
            },
{
    lemma_second_line_sees_first(steps, state, before, first, second, actions, after);
    let between = choose|between: W|
        {
            &&& #[trigger] handled(
                steps,
                state,
                before,
                EventView::Line(first),
                actions[0],
                between,
            )
            &&& handled(
                steps,
                next_lifecycle(state, EventView::Line(first)),
                between,
                EventView::Line(second),
                actions[1],
                after,
            )
        };
    assert(next_lifecycle(state, EventView::Line(first)) == state);
    let answer = choose|response: ResponseView|
        {
            &&& answers(steps, before, line_request(first)->0, response, between)
            &&& actions[0] == ActionView::Reply(#[trigger] response_line(response))
        };
    let answer_next = choose|response: ResponseView|
        {
            &&& answers(steps, between, line_request(second)->0, response, after)
            &&& actions[1] == ActionView::Reply(#[trigger] response_line(response))
        };
    let told = choose|outcome: StepOutcomeView|
        #[trigger] step_ran(
            step_run_by(steps, first),
            before,
            args_run_by(steps, first),
            outcome,
            between,
        ) && answer == outcome_response(outcome);
    let told_next = choose|outcome: StepOutcomeView|
        #[trigger] step_ran(
            step_run_by(steps, second),
            between,
            args_run_by(steps, second),
            outcome,
            after,
        ) && answer_next == outcome_response(outcome);
    assert(step_ran(step_run_by(steps, first), before, args_run_by(steps, first), told, between));
    assert(step_ran(
        step_run_by(steps, second),
        between,
        args_run_by(steps, second),
        told_next,
        after,
    ));
}

/// The server: the dispatch engine of the run, and where the server stands.
#[verifier::reject_recursive_types(W)]
pub struct Server<W> {
    runner: WorldRunner<W>,
    state: Lifecycle,
}

impl<W: World> Server<W> {
    /// Where the server stands.
    pub closed spec fn lifecycle(&self) -> Lifecycle {
        self.state
    }

    /// The dispatch engine.
    pub closed spec fn engine(&self) -> WorldRunner<W> {
        self.runner
    }

    /// A server for `runner`. It listens, and has not been asked to stop.
    pub fn new(runner: WorldRunner<W>) -> (server: Self)
        ensures
            server.lifecycle() == initial(),
            server.engine() == runner,
    {
        Server { runner, state: Lifecycle { phase: Phase::Listening, stop_requested: false } }
    }

    /// Where the server stands.
    pub fn state(&self) -> (state: Lifecycle)
        ensures
            state == self.lifecycle(),
    {
        self.state
    }

    /// The dispatch engine, to look at.
    pub fn runner(&self) -> (runner: &WorldRunner<W>)
        ensures
            *runner == self.engine(),
    {
        &self.runner
    }

    /// What the server waits for where it stands.
    pub fn waiting(&self) -> (action: ServerAction)
        ensures
            action@ == awaited(self.lifecycle()),
    {
        match self.state.phase {
            Phase::Listening => ServerAction::Accept,
            Phase::Serving => ServerAction::Read,
            Phase::Stopped => ServerAction::Exit,
        }
    }

    /// Takes note of an event and says what is to be done next. A line is
    /// answered before this returns: the request of the next line finds the
    /// world as the response to this one left it.
    pub fn handle(&mut self, event: ServerEvent) -> (action: ServerAction)
        ensures
            final(self).lifecycle() == next_lifecycle(old(self).lifecycle(), event@),
            final(self).engine().steps() == old(self).engine().steps(),
            handled(
                old(self).engine().steps(),
                old(self).lifecycle(),
                old(self).engine().world(),
                event@,
                action@,
                final(self).engine().world(),
            ),
    {
        match event {
            ServerEvent::StopRequested => {
                self.state.stop_requested = true;
            },
            ServerEvent::StopHandleDropped => {
                self.state.stop_requested = true;
            },
            ServerEvent::Connected => {
                if self.state.phase == Phase::Listening {
                    self.state.phase = Phase::Serving;
                }
            },
            ServerEvent::PeerClosed => {
                if self.state.phase == Phase::Serving {
                    self.end_session();
                }
            },
            ServerEvent::Line(line) => {
                if self.state.phase == Phase::Serving {
                    match read_request(line.as_str()) {
                        Some(request) => {
                            let response = self.runner.execute_cmd(request);
                            let reply = write_response(&response);
                            assert(reply@ == response_line(response@));
                            return ServerAction::Reply(reply);
                        },
                        None => {
                            self.end_session();
                        },
                    }
                }
            },
        }
        self.waiting()
    }

    /// Handles the lines of an open session one after the other, as `handle`
    /// does each, and gives what is to be done after each.
    pub fn handle_lines(&mut self, lines: &Vec<String>) -> (actions: Vec<ServerAction>)
        ensures
            final(self).lifecycle() == after_lines(old(self).lifecycle(), texts(lines@)),
            final(self).engine().steps() == old(self).engine().steps(),
            lines_handled(
                old(self).engine().steps(),
                old(self).lifecycle(),
                old(self).engine().world(),
                texts(lines@),
                actions_view(actions@),
                final(self).engine().world(),
            ),
    {
        let ghost steps = self.engine().steps();
        let ghost state = self.lifecycle();
        let ghost before = self.engine().world();
        let ghost all = texts(lines@);
        let mut actions: Vec<ServerAction> = Vec::new();
        let mut i: usize = 0;
        proof {
            assert(all.take(0) =~= Seq::<Seq<char>>::empty());
            assert(actions_view(actions@) =~= Seq::<ActionView>::empty());
        }
        while i < lines.len()
            invariant
                i <= lines.len(),
                all == texts(lines@),
                actions.len() == i,
                self.engine().steps() == steps,
                self.lifecycle() == after_lines(state, all.take(i as int)),
                lines_handled(
                    steps,
                    state,
                    before,
                    all.take(i as int),
                    actions_view(actions@),
                    self.engine().world(),
                ),
            decreases lines.len() - i,
        {
            let ghost between = self.engine().world();
            let ghost done = actions_view(actions@);
            let action = self.handle(ServerEvent::Line(lines[i].clone()));
            actions.push(action);
            proof {
                let now = all.take(i + 1);
                assert(now.drop_last() =~= all.take(i as int));
                assert(now.last() == lines@[i as int]@);
                assert(actions_view(actions@).drop_last() =~= done);
                assert(actions_view(actions@).last() == action@);
                assert(handled(
                    steps,
                    after_lines(state, now.drop_last()),
                    between,
                    EventView::Line(now.last()),
                    actions_view(actions@).last(),
                    self.engine().world(),
                ));
            }
            i += 1;
        }
        proof {
            assert(all.take(i as int) =~= all);
        }
        actions
    }

    fn end_session(&mut self)
        ensures
            final(self).lifecycle() == after_session(old(self).lifecycle()),
            final(self).engine() == old(self).engine(),
    {
        if self.state.stop_requested {
            self.state.phase = Phase::Stopped;
        } else {
            self.state.phase = Phase::Listening;
        }
    }
}

} // verus!
