use vstd::prelude::*;

use crate::run::Outcome;

verus! {

/// Exit status of a child whose test passed.
pub const PASSED_STATUS: i32 = 0;

/// Exit status of a child whose test body failed; also what an unhandled
/// panic gives.
pub const TEST_FAILED_STATUS: i32 = 101;

/// Exit status of a child whose setup or cleanup failed.
pub const HARNESS_FAILED_STATUS: i32 = 102;

/// What the parent reports for one isolated test.
#[derive(Debug, Clone, Copy, PartialEq, Eq, Structural)]
pub enum Verdict {
    Passed,
    /// The test's own logic failed.
    TestFailed,
    /// Setup or cleanup infrastructure failed.
    HarnessFailed,
    /// The child process could not be spawned.
    IsolationFailed,
    /// The child ended otherwise: killed by a signal, or an unknown status.
    Aborted,
}

pub open spec fn status_of(o: Outcome) -> i32 {
    match o {
        Outcome::Passed => PASSED_STATUS,
        Outcome::TestFailed => TEST_FAILED_STATUS,
        Outcome::HarnessFailed { .. } => HARNESS_FAILED_STATUS,
    }
}

/// The class of outcome the parent must tell apart.
pub open spec fn class_of(o: Outcome) -> Verdict {
    match o {
        Outcome::Passed => Verdict::Passed,
        Outcome::TestFailed => Verdict::TestFailed,
        Outcome::HarnessFailed { .. } => Verdict::HarnessFailed,
    }
}

pub open spec fn verdict_spec(spawned: bool, status: Option<i32>) -> Verdict {
    if !spawned {
        Verdict::IsolationFailed
    } else {
        match status {
            Some(c) => if c == PASSED_STATUS {
                Verdict::Passed
            } else if c == TEST_FAILED_STATUS {
                Verdict::TestFailed
            } else if c == HARNESS_FAILED_STATUS {
                Verdict::HarnessFailed
            } else {
                Verdict::Aborted
            },
            None => Verdict::Aborted,
        }
    }
}

/// The status with which the child process exits after its run.
pub fn exit_status(o: Outcome) -> (c: i32)
    ensures
        c == status_of(o),
{
    match o {
        Outcome::Passed => PASSED_STATUS,
        Outcome::TestFailed => TEST_FAILED_STATUS,
        Outcome::HarnessFailed { .. } => HARNESS_FAILED_STATUS,
    }
}

/// The parent's verdict from whether the child was spawned and its exit
/// status (`None` when a signal ended it).
pub fn verdict(spawned: bool, status: Option<i32>) -> (v: Verdict)
    ensures
        v == verdict_spec(spawned, status),
{
    if !spawned {
        return Verdict::IsolationFailed;
    }
    match status {
        Some(c) => if c == PASSED_STATUS {
            Verdict::Passed
        } else if c == TEST_FAILED_STATUS {
            Verdict::TestFailed
        } else if c == HARNESS_FAILED_STATUS {
            Verdict::HarnessFailed
        } else {
            Verdict::Aborted
        },
        None => Verdict::Aborted,
    }
}

/// The parent reads back the class of the child's outcome from its exit
/// status, so a test failure, a harness failure and a pass stay apart, and
/// none of them is taken for a failure to spawn.
pub proof fn lemma_status_round_trip(o: Outcome)
    ensures
        verdict_spec(true, Some(status_of(o))) == class_of(o),
        class_of(o) != Verdict::IsolationFailed,
{
}

} // verus!
