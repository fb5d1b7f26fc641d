use sealed_test::harness::{sealed_test, Step};
use sealed_test::isolation::{exit_status, verdict, Verdict};
use sealed_test::run::{Failure, HarnessRun, Outcome};

/// Runs `plan` with `fails` reporting failure, returning the indices performed.
fn simulate(plan: &Vec<Step>, fails: &dyn Fn(usize, &Step) -> bool) -> (Vec<usize>, HarnessRun) {
    let mut run = HarnessRun::start();
    let mut done = Vec::new();
    while !run.is_finished(plan) {
        let at = run.next;
        done.push(at);
        run.record(plan, !fails(at, &plan[at]));
    }
    (done, run)
}

#[test]
fn every_step_runs_in_order_when_all_succeed() {
    let plan = sealed_test("files = [\"a\"], before = b(), after = c(), cmd_after = { d }").unwrap();
    let (done, run) = simulate(&plan, &|_, _| false);
    assert_eq!(done, (0..plan.len()).collect::<Vec<_>>());
    assert_eq!(run.outcome(), Outcome::Passed);
}

#[test]
fn failed_body_still_runs_after_hooks() {
    let plan = sealed_test("after = mark(), cmd_after = { echo after }").unwrap();
    let (done, run) = simulate(&plan, &|_, s| *s == Step::RunBody);
    assert_eq!(done, vec![0, 1, 2, 3, 4]);
    assert_eq!(run.outcome(), Outcome::TestFailed);
}

#[test]
fn cleanup_failure_after_failed_body_is_secondary() {
    let plan = sealed_test("after = mark(), cmd_after = { false }").unwrap();
    let (done, run) = simulate(&plan, &|at, _| at >= 1);
    assert_eq!(done, vec![0, 1, 2, 3, 4]);
    assert_eq!(run.outcome(), Outcome::TestFailed);
    assert_eq!(run.secondary, vec![Failure::Step { at: 2 }, Failure::Step { at: 3 }, Failure::Step { at: 4 }]);
}

#[test]
fn after_failure_after_passing_body_is_primary() {
    let plan = sealed_test("after = mark()").unwrap();
    let (done, run) = simulate(&plan, &|at, _| at == 2);
    assert_eq!(done, vec![0, 1, 2, 3]);
    assert_eq!(run.outcome(), Outcome::HarnessFailed { at: 2 });
}

#[test]
fn setup_failure_skips_to_teardown() {
    let plan = sealed_test("files = [\"missing\"], before = b(), after = c()").unwrap();
    let (done, run) = simulate(&plan, &|at, _| at == 1);
    assert_eq!(done, vec![0, 1, 5]);
    assert_eq!(run.outcome(), Outcome::HarnessFailed { at: 1 });
}

#[test]
fn failure_to_enter_work_dir_ends_the_run() {
    let plan = sealed_test("").unwrap();
    let (done, run) = simulate(&plan, &|at, _| at == 0);
    assert_eq!(done, vec![0]);
    assert_eq!(run.outcome(), Outcome::HarnessFailed { at: 0 });
}

#[test]
fn teardown_failure_is_not_escalated() {
    let plan = sealed_test("").unwrap();
    let (_, run) = simulate(&plan, &|at, _| at == 2);
    assert_eq!(run.outcome(), Outcome::Passed);
    assert_eq!(run.secondary, vec![Failure::Step { at: 2 }]);
}

#[test]
fn exit_status_round_trips_to_verdict() {
    assert_eq!(verdict(true, Some(exit_status(Outcome::Passed))), Verdict::Passed);
    assert_eq!(verdict(true, Some(exit_status(Outcome::TestFailed))), Verdict::TestFailed);
    assert_eq!(verdict(true, Some(exit_status(Outcome::HarnessFailed { at: 3 }))), Verdict::HarnessFailed);
    assert_eq!(exit_status(Outcome::TestFailed), 101);
}

#[test]
fn spawn_failure_and_signals_are_distinct() {
    assert_eq!(verdict(false, None), Verdict::IsolationFailed);
    assert_eq!(verdict(true, None), Verdict::Aborted);
    assert_eq!(verdict(true, Some(7)), Verdict::Aborted);
}
