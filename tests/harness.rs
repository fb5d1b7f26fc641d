use sealed_test::attributes::{ConfigError, EnvVar, SealedTestAttributes};
use sealed_test::harness::{harness_plan, sealed_test, SealedTest, Step};

fn s(t: &str) -> String {
    t.to_string()
}

#[test]
fn full_configuration_follows_the_fixed_order() {
    let plan = sealed_test(
        "cmd_after = { echo bye }, after = teardown(), env = [(\"A\", \"1\"), (\"B\", \"2\")], before = setup(), files = [\"tests/foo\", \"tests/baz/\"], cmd_before = { git init }",
    )
    .unwrap();
    assert_eq!(
        plan,
        vec![
            Step::EnterWorkDir,
            Step::CopyIn { source: s("tests/foo"), target: s("foo") },
            Step::CopyIn { source: s("tests/baz/"), target: s("baz") },
            Step::SetEnv { name: s("A"), value: s("1") },
            Step::SetEnv { name: s("B"), value: s("2") },
            Step::RunCommands { block: s(" git init ") },
            Step::Evaluate { expr: s("setup()") },
            Step::RunBody,
            Step::Evaluate { expr: s("teardown()") },
            Step::RunCommands { block: s(" echo bye ") },
            Step::Teardown,
        ]
    );
}

#[test]
fn file_is_staged_under_its_final_component() {
    let plan = sealed_test("files = [\"tests/foo\"]").unwrap();
    assert_eq!(plan[1], Step::CopyIn { source: s("tests/foo"), target: s("foo") });
    assert_eq!(plan.len(), 4);
}

#[test]
fn directory_is_staged_under_its_name() {
    let plan = sealed_test("files = [\"tests/baz\"]").unwrap();
    assert_eq!(plan[1], Step::CopyIn { source: s("tests/baz"), target: s("baz") });
}

#[test]
fn empty_configuration_gives_bare_isolation() {
    let plan = sealed_test("").unwrap();
    assert_eq!(plan, vec![Step::EnterWorkDir, Step::RunBody, Step::Teardown]);
}

#[test]
fn duplicate_key_gives_no_procedure() {
    let r = sealed_test("env = [(\"A\", \"1\")], env = [(\"A\", \"2\")]");
    assert_eq!(r, Err(ConfigError::DuplicateAttribute { name: s("env") }));
}

#[test]
fn later_variables_follow_earlier_ones() {
    let plan = sealed_test("env = [(\"V\", \"first\"), (\"V\", \"second\")]").unwrap();
    assert_eq!(plan[1], Step::SetEnv { name: s("V"), value: s("first") });
    assert_eq!(plan[2], Step::SetEnv { name: s("V"), value: s("second") });
}

#[test]
fn builder_appends_in_call_order() {
    let plan = SealedTest::new()
        .with_files(vec![s("a/b")])
        .with_env(vec![EnvVar { name: s("K"), value: s("v") }])
        .with_cmd(None)
        .with_expr(Some(s("f()")))
        .with_test()
        .with_expr(None)
        .with_cmd(Some(s("ls")))
        .build();
    assert_eq!(
        plan,
        vec![
            Step::EnterWorkDir,
            Step::CopyIn { source: s("a/b"), target: s("b") },
            Step::SetEnv { name: s("K"), value: s("v") },
            Step::Evaluate { expr: s("f()") },
            Step::RunBody,
            Step::RunCommands { block: s("ls") },
            Step::Teardown,
        ]
    );
}

#[test]
fn plan_of_attributes_built_by_hand() {
    let mut a = SealedTestAttributes::new();
    a.after = Some(s("done()"));
    let plan = harness_plan(a);
    assert_eq!(
        plan,
        vec![Step::EnterWorkDir, Step::RunBody, Step::Evaluate { expr: s("done()") }, Step::Teardown]
    );
}
