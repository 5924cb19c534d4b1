//! What a step is made of: the world it acts on, its handler, and the
//! outcome of running it.

use crate::args::{step_args, StepArg, StepArgView};
use vstd::prelude::*;

verus! {

/// The state that the steps of one run share. One world lives as long as the
/// run; the two hooks let it reset what belongs to a single scenario. The
/// plain types are worlds whose hooks do nothing.
pub trait World: Sized {
    /// What the start of a scenario does to the world: whether it can leave
    /// the world `after`. A world that does not say can become any.
    open spec fn begins(&self, after: Self) -> bool {
        true
    }

    /// What the end of a scenario does to the world: whether it can leave
    /// the world `after`. A world that does not say can become any.
    open spec fn ends(&self, after: Self) -> bool {
        true
    }

    /// Called when the driver announces the start of a scenario. A world
    /// that has no such hook of its own stays as it is.
    fn begin_scenario(&mut self)
        ensures
            old(self).begins(*final(self)) || *final(self) == *old(self),
    {
    }

    /// Called when the driver announces the end of a scenario. A world that
    /// has no such hook of its own stays as it is.
    fn end_scenario(&mut self)
        ensures
            old(self).ends(*final(self)) || *final(self) == *old(self),
    {
    }
}

impl World for () {
    open spec fn begins(&self, after: Self) -> bool {
        after == *self
    }

    open spec fn ends(&self, after: Self) -> bool {
        after == *self
    }
}

impl World for bool {
    open spec fn begins(&self, after: Self) -> bool {
        after == *self
    }

    open spec fn ends(&self, after: Self) -> bool {
        after == *self
    }
}

impl World for char {
    open spec fn begins(&self, after: Self) -> bool {
        after == *self
    }

    open spec fn ends(&self, after: Self) -> bool {
        after == *self
    }
}

impl World for String {
    open spec fn begins(&self, after: Self) -> bool {
        after == *self
    }

    open spec fn ends(&self, after: Self) -> bool {
        after == *self
    }
}

impl World for u8 {
    open spec fn begins(&self, after: Self) -> bool {
        after == *self
    }

    open spec fn ends(&self, after: Self) -> bool {
        after == *self
    }
}

impl World for u16 {
    open spec fn begins(&self, after: Self) -> bool {
        after == *self
    }

    open spec fn ends(&self, after: Self) -> bool {
        after == *self
    }
}

impl World for u32 {
    open spec fn begins(&self, after: Self) -> bool {
        after == *self
    }

    open spec fn ends(&self, after: Self) -> bool {
        after == *self
    }
}

impl World for u64 {
    open spec fn begins(&self, after: Self) -> bool {
        after == *self
    }

    open spec fn ends(&self, after: Self) -> bool {
        after == *self
    }
}

impl World for u128 {
    open spec fn begins(&self, after: Self) -> bool {
        after == *self
    }

    open spec fn ends(&self, after: Self) -> bool {
        after == *self
    }
}

impl World for usize {
    open spec fn begins(&self, after: Self) -> bool {
        after == *self
    }

    open spec fn ends(&self, after: Self) -> bool {
        after == *self
    }
}

impl World for i8 {
    open spec fn begins(&self, after: Self) -> bool {
        after == *self
    }

    open spec fn ends(&self, after: Self) -> bool {
        after == *self
    }
}

impl World for i16 {
    open spec fn begins(&self, after: Self) -> bool {
        after == *self
    }

    open spec fn ends(&self, after: Self) -> bool {
        after == *self
    }
}

impl World for i32 {
    open spec fn begins(&self, after: Self) -> bool {
        after == *self
    }

    open spec fn ends(&self, after: Self) -> bool {
        after == *self
    }
}

impl World for i64 {
    open spec fn begins(&self, after: Self) -> bool {
        after == *self
    }

    open spec fn ends(&self, after: Self) -> bool {
        after == *self
    }
}

impl World for i128 {
    open spec fn begins(&self, after: Self) -> bool {
        after == *self
    }

    open spec fn ends(&self, after: Self) -> bool {
        after == *self
    }
}

impl World for isize {
    open spec fn begins(&self, after: Self) -> bool {
        after == *self
    }

    open spec fn ends(&self, after: Self) -> bool {
        after == *self
    }
}

/// How running a step ended.
#[derive(Clone, Debug, PartialEq, Eq)]
pub enum StepOutcome {
    /// The step ran to its end.
    Passed,
    /// The step ran to its end and has a text to report.
    PassedWith { text: String },
    /// The step found what it checks to be wrong, or could not run.
    Failed { message: String, exception: String },
    /// The step is known but not written yet.
    Pending { message: String },
}

/// The mathematical value of a `StepOutcome`.
pub enum StepOutcomeView {
    Passed,
    PassedWith { text: Seq<char> },
    Failed { message: Seq<char>, exception: Seq<char> },
    Pending { message: Seq<char> },
}

impl View for StepOutcome {
    type V = StepOutcomeView;

    open spec fn view(&self) -> StepOutcomeView {
        match self {
            StepOutcome::Passed => StepOutcomeView::Passed,
            StepOutcome::PassedWith { text } => StepOutcomeView::PassedWith { text: text@ },
            StepOutcome::Failed { message, exception } => StepOutcomeView::Failed {
                message: message@,
                exception: exception@,
            },
            StepOutcome::Pending { message } => StepOutcomeView::Pending { message: message@ },
        }
    }
}

/// The code of a step. It is handed the world, for the time of the call only,
/// and the arguments of the request, converted to the kinds that the step
/// declares.
pub trait StepHandler<W>: Send {
    /// What the handler does: whether, run on the world `before` with the
    /// arguments `args`, it can report `outcome` and leave the world `after`.
    /// A handler that does not say can do anything.
    open spec fn effect(
        &self,
        before: W,
        args: Seq<StepArgView>,
        outcome: StepOutcomeView,
        after: W,
    ) -> bool {
        true
    }

    fn run(&self, world: &mut W, args: &Vec<StepArg>) -> (outcome: StepOutcome)
        ensures
            self.effect(*old(world), step_args(args@), outcome@, *final(world)),
    ;
}

} // verus!
