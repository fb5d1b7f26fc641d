use vstd::prelude::*;

use crate::attributes::{
    files_named, pairs, text_of, texts, Attributes, ConfigError, EnvVar, Fault,
    SealedTestAttributes,
};
use crate::parser::{parse_attributes, parse_spec};
use crate::path::{file_name, final_component};

verus! {

/// One operation of a harness procedure.
#[derive(Debug, Clone, PartialEq, Eq)]
pub enum Step {
    /// Create a fresh temporary directory and make it the working directory.
    EnterWorkDir,
    /// Copy `source`, relative to the project root, to `target` in the working
    /// directory; a directory is copied with its contents.
    CopyIn { source: String, target: String },
    /// Set an environment variable of the test process.
    SetEnv { name: String, value: String },
    /// Run a command block, stopping at the first command that fails.
    RunCommands { block: String },
    /// Evaluate a setup or teardown expression.
    Evaluate { expr: String },
    /// Run the test body.
    RunBody,
    /// Leave and remove the working directory.
    Teardown,
}

/// The abstract value of a [`Step`].
pub enum Op {
    EnterWorkDir,
    CopyIn(Seq<char>, Seq<char>),
    SetEnv(Seq<char>, Seq<char>),
    RunCommands(Seq<char>),
    Evaluate(Seq<char>),
    RunBody,
    Teardown,
}

impl View for Step {
    type V = Op;

    open spec fn view(&self) -> Op {
        match self {
            Step::EnterWorkDir => Op::EnterWorkDir,
            Step::CopyIn { source, target } => Op::CopyIn(source@, target@),
            Step::SetEnv { name, value } => Op::SetEnv(name@, value@),
            Step::RunCommands { block } => Op::RunCommands(block@),
            Step::Evaluate { expr } => Op::Evaluate(expr@),
            Step::RunBody => Op::RunBody,
            Step::Teardown => Op::Teardown,
        }
    }
}

pub open spec fn ops(v: Seq<Step>) -> Seq<Op> {
    v.map_values(|s: Step| s@)
}

/// Staging of each path under its final component, in order.
pub open spec fn copy_ops(files: Seq<Seq<char>>) -> Seq<Op> {
    files.map_values(|f: Seq<char>| Op::CopyIn(f, file_name(f).unwrap()))
}

/// Setting of each variable, in order.
pub open spec fn env_ops(env: Seq<(Seq<char>, Seq<char>)>) -> Seq<Op> {
    env.map_values(|v: (Seq<char>, Seq<char>)| Op::SetEnv(v.0, v.1))
}

pub open spec fn expr_ops(e: Option<Seq<char>>) -> Seq<Op> {
    match e {
        Some(x) => seq![Op::Evaluate(x)],
        None => Seq::empty(),
    }
}

pub open spec fn cmd_ops(c: Option<Seq<char>>) -> Seq<Op> {
    match c {
        Some(b) => seq![Op::RunCommands(b)],
        None => Seq::empty(),
    }
}

/// The operations that set up the test, in the order they run.
pub open spec fn setup_ops(c: Attributes) -> Seq<Op> {
    seq![Op::EnterWorkDir] + copy_ops(c.files) + env_ops(c.env) + cmd_ops(c.cmd_before) + expr_ops(
        c.before,
    )
}

/// The operations after the body, in the order they run.
pub open spec fn cleanup_ops(c: Attributes) -> Seq<Op> {
    expr_ops(c.after) + cmd_ops(c.cmd_after) + seq![Op::Teardown]
}

/// The harness procedure of a configuration: work directory, files,
/// variables, `cmd_before`, `before`, the body, `after`, `cmd_after`,
/// teardown.
pub open spec fn plan_of(c: Attributes) -> Seq<Op> {
    setup_ops(c) + seq![Op::RunBody] + cleanup_ops(c)
}

/// A harness procedure under construction.
pub struct SealedTest {
    steps: Vec<Step>,
}

impl View for SealedTest {
    type V = Seq<Op>;

    closed spec fn view(&self) -> Seq<Op> {
        ops(self.steps@)
    }
}

impl SealedTest {
    /// A procedure that only enters a fresh working directory.
    pub fn new() -> (r: SealedTest)
        ensures
            r@ == seq![Op::EnterWorkDir],
    {
        let r = SealedTest { steps: vec![Step::EnterWorkDir] };
        assert(r@ =~= seq![Op::EnterWorkDir]);
        r
    }

    fn push(&mut self, s: Step)
        ensures
            final(self)@ == old(self)@.push(s@),
    {
        self.steps.push(s);
        assert(final(self)@ =~= old(self)@.push(s@));
    }

    /// The finished procedure: the steps so far, then the teardown.
    pub fn build(self) -> (r: Vec<Step>)
        ensures
            ops(r@) == self@.push(Op::Teardown),
    {
        let mut s = self;
        s.push(Step::Teardown);
        s.steps
    }

    /// Appends the evaluation of `expr`, if there is one.
    pub fn with_expr(self, expr: Option<String>) -> (r: SealedTest)
        ensures
            r@ == self@ + expr_ops(text_of(expr)),
    {
        let mut s = self;
        match expr {
            Some(x) => s.push(Step::Evaluate { expr: x }),
            None => {},
        }
        assert(s@ =~= self@ + expr_ops(text_of(expr)));
        s
    }

    /// Appends the command block `block`, if there is one.
    pub fn with_cmd(self, block: Option<String>) -> (r: SealedTest)
        ensures
            r@ == self@ + cmd_ops(text_of(block)),
    {
        let mut s = self;
        match block {
            Some(b) => s.push(Step::RunCommands { block: b }),
            None => {},
        }
        assert(s@ =~= self@ + cmd_ops(text_of(block)));
        s
    }

    /// Appends the test body.
    pub fn with_test(self) -> (r: SealedTest)
        ensures
            r@ == self@.push(Op::RunBody),
    {
        let mut s = self;
        s.push(Step::RunBody);
        s
    }

    /// Appends the staging of each path, in order, under its final component.
    pub fn with_files(self, files: Vec<String>) -> (r: SealedTest)
        requires
            files_named(texts(files@)),
        ensures
            r@ == self@ + copy_ops(texts(files@)),
    {
        let mut s = self;
        let mut i: usize = 0;
        while i < files.len()
            invariant
                i <= files@.len(),
                files_named(texts(files@)),
                s@ == self@ + copy_ops(texts(files@.subrange(0, i as int))),
            decreases files@.len() - i,
        {
            let source = files[i].clone();
            assert(texts(files@)[i as int] == files@[i as int]@);
            let target = final_component(&source).unwrap();
            let ghost before = s@;
            s.push(Step::CopyIn { source, target });
            assert(copy_ops(texts(files@.subrange(0, i + 1))) =~= copy_ops(
                texts(files@.subrange(0, i as int)),
            ).push(Op::CopyIn(source@, target@)));
            i = i + 1;
        }
        assert(files@.subrange(0, i as int) =~= files@);
        s
    }

    /// Appends the setting of each variable, in order.
    pub fn with_env(self, env: Vec<EnvVar>) -> (r: SealedTest)
        ensures
            r@ == self@ + env_ops(pairs(env@)),
    {
        let mut s = self;
        let mut i: usize = 0;
        while i < env.len()
            invariant
                i <= env@.len(),
                s@ == self@ + env_ops(pairs(env@.subrange(0, i as int))),
            decreases env@.len() - i,
        {
            let name = env[i].name.clone();
            let value = env[i].value.clone();
            s.push(Step::SetEnv { name, value });
            assert(env_ops(pairs(env@.subrange(0, i + 1))) =~= env_ops(
                pairs(env@.subrange(0, i as int)),
            ).push(Op::SetEnv(name@, value@)));
            i = i + 1;
        }
        assert(env@.subrange(0, i as int) =~= env@);
        s
    }
}

/// The harness procedure of a configuration.
pub fn harness_plan(attrs: SealedTestAttributes) -> (r: Vec<Step>)
    requires
        attrs.wf(),
    ensures
        ops(r@) == plan_of(attrs@),
{
    let ghost c = attrs@;
    let r = SealedTest::new().with_files(attrs.files).with_env(attrs.env).with_cmd(
        attrs.cmd_before,
    ).with_expr(attrs.before).with_test().with_expr(attrs.after).with_cmd(attrs.cmd_after).build();
    assert(ops(r@) =~= plan_of(c));
    r
}

/// Reads a configuration and synthesises its harness procedure; a rejected
/// configuration gives its error and no procedure.
pub fn sealed_test(config: &str) -> (r: Result<Vec<Step>, ConfigError>)
    ensures
        match r {
            Ok(plan) => parse_spec(config@) is Ok && ops(plan@) == plan_of(
                parse_spec(config@)->Ok_0,
            ),
            Err(e) => parse_spec(config@) == Err::<Attributes, Fault>(e@),
        },
{
    match parse_attributes(config) {
        Ok(attrs) => Ok(harness_plan(attrs)),
        Err(e) => Err(e),
    }
}

} // verus!
