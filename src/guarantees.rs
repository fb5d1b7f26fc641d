use vstd::prelude::*;

use crate::attributes::{no_attributes, Attributes, Fault};
use crate::harness::{cleanup_ops, cmd_ops, copy_ops, env_ops, expr_ops, plan_of, setup_ops, Op};
use crate::parser::{is_space, parse_spec, skip_spaces};
use crate::run::{advance, initial, outcome_of, performed, run, Outcome, RunState};

verus! {

proof fn lemma_all_succeed(plan: Seq<Op>, r: RunState, m: nat)
    requires
        0 <= r.next,
        r.next + m <= plan.len(),
    ensures
        performed(plan, r, Seq::new(m, |i: int| true)) == Seq::new(m, |i: int| r.next + i),
        run(plan, r, Seq::new(m, |i: int| true)).next == r.next + m,
        run(plan, r, Seq::new(m, |i: int| true)).primary == r.primary,
    decreases m,
{
    let all = Seq::new(m, |i: int| true);
    if m > 0 {
        let rest = Seq::new((m - 1) as nat, |i: int| true);
        assert(all.drop_first() =~= rest);
        let r2 = advance(plan, r, true);
        lemma_all_succeed(plan, r2, (m - 1) as nat);
        assert(performed(plan, r, all) =~= Seq::new(m, |i: int| r.next + i));
    } else {
        assert(performed(plan, r, all) =~= Seq::new(m, |i: int| r.next + i));
    }
}

/// Whatever the configuration, a run in which every operation succeeds
/// performs the whole procedure one operation after the other (working
/// directory, files, variables, `cmd_before`, `before`, body, `after`,
/// `cmd_after`, teardown) and passes.
pub proof fn lemma_runs_in_order(c: Attributes)
    ensures
        ({
            let plan = plan_of(c);
            let all = Seq::new(plan.len(), |i: int| true);
            &&& performed(plan, initial(), all) == Seq::new(plan.len(), |i: int| i)
            &&& run(plan, initial(), all).next == plan.len()
            &&& outcome_of(run(plan, initial(), all)) == Outcome::Passed
        }),
{
    let plan = plan_of(c);
    lemma_all_succeed(plan, initial(), plan.len());
    assert(Seq::new(plan.len(), |i: int| initial().next + i) =~= Seq::new(plan.len(), |i: int| i));
}

proof fn lemma_after_body(plan: Seq<Op>, r: RunState, results: Seq<bool>)
    requires
        r.body_ran,
        0 <= r.next,
        r.next + results.len() <= plan.len(),
        forall|i: int| r.next <= i < plan.len() ==> plan[i] != Op::EnterWorkDir,
    ensures
        performed(plan, r, results) == Seq::new(results.len(), |i: int| r.next + i),
        run(plan, r, results).next == r.next + results.len(),
        r.primary is Some ==> run(plan, r, results).primary == r.primary,
    decreases results.len(),
{
    if results.len() > 0 {
        let r2 = advance(plan, r, results[0]);
        assert(plan[r.next] != Op::EnterWorkDir);
        assert(r2.next == r.next + 1 && r2.body_ran);
        assert(r.primary is Some ==> r2.primary == r.primary);
        lemma_after_body(plan, r2, results.drop_first());
    }
    assert(performed(plan, r, results) =~= Seq::new(results.len(), |i: int| r.next + i));
}

/// A failed test body still has every later operation performed (`after`,
/// `cmd_after`, teardown) in order, whatever each of them reports, and the run
/// reports the body's failure, not a cleanup failure.
pub proof fn lemma_cleanup_after_failed_body(c: Attributes, r: RunState, results: Seq<bool>)
    requires
        r.next == setup_ops(c).len(),
        r.primary is None,
        results.len() == cleanup_ops(c).len(),
    ensures
        ({
            let plan = plan_of(c);
            let b = setup_ops(c).len() as int;
            let s = advance(plan, r, false);
            &&& plan[b] == Op::RunBody
            &&& forall|i: int| 0 <= i < results.len() ==> plan[b + 1 + i] == cleanup_ops(c)[i]
            &&& performed(plan, s, results) == Seq::new(results.len(), |i: int| b + 1 + i)
            &&& run(plan, s, results).next == plan.len()
            &&& outcome_of(run(plan, s, results)) == Outcome::TestFailed
        }),
{
    let plan = plan_of(c);
    let b = setup_ops(c).len() as int;
    let cl = cleanup_ops(c);
    assert(plan =~= (setup_ops(c) + seq![Op::RunBody]) + cl);
    assert(plan[b] == Op::RunBody);
    assert forall|i: int| 0 <= i < cl.len() implies plan[b + 1 + i] == cl[i] && cl[i]
        != Op::EnterWorkDir by {
        let ea = expr_ops(c.after);
        let cm = cmd_ops(c.cmd_after);
        assert(cl == ea + cm + seq![Op::Teardown]);
        if i < ea.len() {
            assert(cl[i] == ea[i]);
        } else if i < ea.len() + cm.len() {
            assert(cl[i] == cm[i - ea.len()]);
        }
    }
    assert(plan.len() == b + 1 + cl.len());
    let s = advance(plan, r, false);
    assert(s.next == b + 1 && s.body_ran && s.primary == Some(crate::run::Failure::Body));
    assert forall|i: int| s.next <= i < plan.len() implies plan[i] != Op::EnterWorkDir by {
        assert(plan[b + 1 + (i - b - 1)] == cl[i - b - 1]);
    }
    lemma_after_body(plan, s, results);
    assert(Seq::new(results.len(), |i: int| s.next + i) =~= Seq::new(
        results.len(),
        |i: int| b + 1 + i,
    ));
}

proof fn lemma_blank(s: Seq<char>, i: int)
    requires
        0 <= i <= s.len(),
        forall|k: int| 0 <= k < s.len() ==> is_space(s[k]),
    ensures
        skip_spaces(s, i) == s.len(),
    decreases s.len() - i,
{
    if i < s.len() {
        lemma_blank(s, i + 1);
    }
}

/// Blank configuration text gives the empty configuration, and the procedure
/// of that is bare isolation: a fresh working directory, the body, the
/// teardown, with nothing staged, set or run besides.
pub proof fn lemma_empty_configuration(s: Seq<char>)
    requires
        forall|k: int| 0 <= k < s.len() ==> is_space(s[k]),
    ensures
        parse_spec(s) == Ok::<Attributes, Fault>(no_attributes()),
        plan_of(no_attributes()) == seq![Op::EnterWorkDir, Op::RunBody, Op::Teardown],
{
    lemma_blank(s, 0);
    let c = no_attributes();
    assert(copy_ops(c.files) =~= Seq::<Op>::empty());
    assert(env_ops(c.env) =~= Seq::<Op>::empty());
    assert(plan_of(c) =~= seq![Op::EnterWorkDir, Op::RunBody, Op::Teardown]);
}

/// A failure while setting up (staging a file, setting a variable,
/// `cmd_before`, `before`) skips the body and every later hook: the next
/// operation is the teardown, after which the run is over and reports that
/// setup failure.
pub proof fn lemma_setup_failure_skips_to_teardown(c: Attributes, r: RunState, ok: bool)
    requires
        0 < r.next < setup_ops(c).len(),
        !r.body_ran,
        r.primary is None,
    ensures
        ({
            let plan = plan_of(c);
            let s = advance(plan, r, false);
            let t = advance(plan, s, ok);
            &&& s.next == plan.len() - 1
            &&& plan[s.next] == Op::Teardown
            &&& t.next == plan.len()
            &&& outcome_of(t) == Outcome::HarnessFailed { at: r.next as usize }
        }),
{
    let plan = plan_of(c);
    let su = setup_ops(c);
    let cf = seq![Op::EnterWorkDir] + copy_ops(c.files);
    let ce = cf + env_ops(c.env);
    let cc = ce + cmd_ops(c.cmd_before);
    assert(su == cc + expr_ops(c.before));
    assert(plan =~= su + (seq![Op::RunBody] + cleanup_ops(c)));
    assert(plan[r.next] == su[r.next]);
    let i = r.next;
    assert(su[i] != Op::EnterWorkDir && su[i] != Op::Teardown && su[i] != Op::RunBody) by {
        if i < cf.len() {
            assert(su[i] == copy_ops(c.files)[i - 1]);
        } else if i < ce.len() {
            assert(su[i] == env_ops(c.env)[i - cf.len()]);
        } else if i < cc.len() {
            assert(su[i] == cmd_ops(c.cmd_before)[i - ce.len()]);
        } else {
            assert(su[i] == expr_ops(c.before)[i - cc.len()]);
        }
    }
    assert(plan.last() == Op::Teardown) by {
        assert(cleanup_ops(c).last() == Op::Teardown);
    }
}

} // verus!
