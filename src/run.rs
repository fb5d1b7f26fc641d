use vstd::prelude::*;

use crate::harness::{ops, Op, Step};

verus! {

/// A failed operation of a run.
#[derive(Debug, Clone, Copy, PartialEq, Eq, Structural)]
pub enum Failure {
    /// The test body failed.
    Body,
    /// The operation at this index of the procedure failed.
    Step { at: usize },
}

/// How a run ended, as the test framework reports it.
#[derive(Debug, Clone, Copy, PartialEq, Eq, Structural)]
pub enum Outcome {
    Passed,
    /// The test's own logic failed.
    TestFailed,
    /// Setup or cleanup infrastructure failed at this operation.
    HarnessFailed { at: usize },
}

/// The abstract state of a run.
pub struct RunState {
    pub next: int,
    pub body_ran: bool,
    pub primary: Option<Failure>,
    pub secondary: Seq<Failure>,
}

/// The progress of one harness procedure: which operation comes next, and
/// the failures so far. The first failure decides the outcome; later ones are
/// kept as secondary diagnostics.
#[derive(Debug)]
pub struct HarnessRun {
    /// Index of the next operation; the run is over once it reaches the
    /// length of the procedure.
    pub next: usize,
    /// Whether the test body has been run.
    pub body_ran: bool,
    pub primary: Option<Failure>,
    pub secondary: Vec<Failure>,
}

impl View for HarnessRun {
    type V = RunState;

    open spec fn view(&self) -> RunState {
        RunState {
            next: self.next as int,
            body_ran: self.body_ran,
            primary: self.primary,
            secondary: self.secondary@,
        }
    }
}

/// Before the first operation.
pub open spec fn initial() -> RunState {
    RunState { next: 0, body_ran: false, primary: None, secondary: Seq::empty() }
}

/// `r` with failure `f` recorded: primary if none came before, else secondary.
pub open spec fn note(r: RunState, f: Failure) -> RunState {
    if r.primary is None {
        RunState { primary: Some(f), ..r }
    } else {
        RunState { secondary: r.secondary.push(f), ..r }
    }
}

/// A procedure that a run can follow: it ends with the teardown.
pub open spec fn runnable(plan: Seq<Op>) -> bool {
    plan.len() > 0 && plan.last() == Op::Teardown
}

/// The state after the operation `r.next` reported `ok`. A success moves on.
/// A failure to enter the working directory ends the run, with nothing to
/// tear down. A failure before the body skips to the teardown. A failure of
/// the body or after it moves on, so that cleanup always runs. A teardown
/// failure is only a secondary diagnostic.
pub open spec fn advance(plan: Seq<Op>, r: RunState, ok: bool) -> RunState {
    let at = r.next;
    let f = Failure::Step { at: at as usize };
    if ok {
        RunState { next: at + 1, body_ran: r.body_ran || plan[at] == Op::RunBody, ..r }
    } else {
        match plan[at] {
            Op::EnterWorkDir => RunState { next: plan.len() as int, ..note(r, f) },
            Op::Teardown => RunState { next: at + 1, secondary: r.secondary.push(f), ..r },
            Op::RunBody => RunState { next: at + 1, body_ran: true, ..note(r, Failure::Body) },
            _ => if r.body_ran {
                RunState { next: at + 1, ..note(r, f) }
            } else {
                RunState { next: plan.len() - 1, ..note(r, f) }
            },
        }
    }
}

/// The outcome that a state reports.
pub open spec fn outcome_of(r: RunState) -> Outcome {
    match r.primary {
        None => Outcome::Passed,
        Some(Failure::Body) => Outcome::TestFailed,
        Some(Failure::Step { at }) => Outcome::HarnessFailed { at },
    }
}

/// The state after the operations report `results` in turn, from `r`, until
/// the run is over.
pub open spec fn run(plan: Seq<Op>, r: RunState, results: Seq<bool>) -> RunState
    decreases results.len(),
{
    if results.len() == 0 || r.next < 0 || r.next >= plan.len() {
        r
    } else {
        run(plan, advance(plan, r, results[0]), results.drop_first())
    }
}

/// The indices of the operations performed in that run, in order.
pub open spec fn performed(plan: Seq<Op>, r: RunState, results: Seq<bool>) -> Seq<int>
    decreases results.len(),
{
    if results.len() == 0 || r.next < 0 || r.next >= plan.len() {
        Seq::empty()
    } else {
        seq![r.next] + performed(plan, advance(plan, r, results[0]), results.drop_first())
    }
}

impl HarnessRun {
    /// A run that has not started.
    pub fn start() -> (r: HarnessRun)
        ensures
            r@ == initial(),
    {
        HarnessRun { next: 0, body_ran: false, primary: None, secondary: Vec::new() }
    }

    /// Whether every operation that the run performs has been performed.
    pub fn is_finished(&self, plan: &Vec<Step>) -> (r: bool)
        ensures
            r == (self.next >= plan@.len()),
    {
        self.next >= plan.len()
    }

    fn note(&mut self, f: Failure)
        ensures
            final(self)@ == note(old(self)@, f),
    {
        if self.primary.is_none() {
            self.primary = Some(f);
        } else {
            self.secondary.push(f);
        }
    }

    /// Records the result of the operation `self.next` and moves to the
    /// operation that comes next.
    pub fn record(&mut self, plan: &Vec<Step>, ok: bool)
        requires
            old(self).next < plan@.len(),
            runnable(ops(plan@)),
        ensures
            final(self)@ == advance(ops(plan@), old(self)@, ok),
    {
        let at = self.next;
        let n = plan.len();
        let ghost p = ops(plan@);
        assert(p[at as int] == plan@[at as int]@);
        if ok {
            match &plan[at] {
                Step::RunBody => {
                    self.body_ran = true;
                },
                _ => {},
            }
            self.next = at + 1;
            return;
        }
        let f = Failure::Step { at };
        match &plan[at] {
            Step::EnterWorkDir => {
                self.note(f);
                self.next = n;
            },
            Step::Teardown => {
                self.secondary.push(f);
                self.next = at + 1;
            },
            Step::RunBody => {
                self.note(Failure::Body);
                self.body_ran = true;
                self.next = at + 1;
            },
            _ => {
                self.note(f);
                if self.body_ran {
                    self.next = at + 1;
                } else {
                    self.next = n - 1;
                }
            },
        }
    }

    /// The outcome reported so far: the first failure decides it.
    pub fn outcome(&self) -> (r: Outcome)
        ensures
            r == outcome_of(self@),
    {
        match self.primary {
            None => Outcome::Passed,
            Some(Failure::Body) => Outcome::TestFailed,
            Some(Failure::Step { at }) => Outcome::HarnessFailed { at },
        }
    }
}

} // verus!
