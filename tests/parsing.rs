use sealed_test::attributes::{ConfigError, EnvVar, SealedTestAttributes};
use sealed_test::parser::parse_attributes;
use sealed_test::path::final_component;

fn parse_ok(text: &str) -> SealedTestAttributes {
    match parse_attributes(text) {
        Ok(a) => a,
        Err(e) => panic!("{:?} rejected: {:?}", text, e),
    }
}

fn var(name: &str, value: &str) -> EnvVar {
    EnvVar { name: name.to_string(), value: value.to_string() }
}

#[test]
fn empty_text_is_empty_configuration() {
    let a = parse_ok("");
    assert_eq!(a, SealedTestAttributes::new());
    let b = parse_ok("  \n\t ");
    assert_eq!(b, SealedTestAttributes::new());
}

#[test]
fn reads_files_list() {
    let a = parse_ok(r#"files = ["tests/foo", "tests/bar"]"#);
    assert_eq!(a.files, vec!["tests/foo".to_string(), "tests/bar".to_string()]);
    assert!(a.env.is_empty());
    assert_eq!(a.before, None);
}

#[test]
fn reads_empty_and_trailing_comma_lists() {
    let a = parse_ok("files = []");
    assert!(a.files.is_empty());
    let b = parse_ok(r#"files = [ "x", ]"#);
    assert_eq!(b.files, vec!["x".to_string()]);
}

#[test]
fn reads_env_pairs_in_order() {
    let a = parse_ok(r#"env = [ ("FOO", "foo"), ("BAR", "bar") ]"#);
    assert_eq!(a.env, vec![var("FOO", "foo"), var("BAR", "bar")]);
}

#[test]
fn keeps_repeated_variable_names() {
    let a = parse_ok(r#"env = [("V", "1"), ("V", "2")]"#);
    assert_eq!(a.env, vec![var("V", "1"), var("V", "2")]);
}

#[test]
fn resolves_escapes_in_literals() {
    let a = parse_ok(r#"env = [("A", "x\"y"), ("B", "tab\there")]"#);
    assert_eq!(a.env, vec![var("A", "x\"y"), var("B", "tab\there")]);
}

#[test]
fn reads_hooks_and_command_blocks() {
    let a = parse_ok(
        "env = [ (\"HOME\", \"la maison\")], files = [ \"tests/bar\"], before = setup(), after = teardown(), cmd_before = { git init; git status }, cmd_after = { echo done }",
    );
    assert_eq!(a.env, vec![var("HOME", "la maison")]);
    assert_eq!(a.files, vec!["tests/bar".to_string()]);
    assert_eq!(a.before, Some("setup()".to_string()));
    assert_eq!(a.after, Some("teardown()".to_string()));
    assert_eq!(a.cmd_before, Some(" git init; git status ".to_string()));
    assert_eq!(a.cmd_after, Some(" echo done ".to_string()));
}

#[test]
fn expression_stops_at_top_level_comma() {
    let a = parse_ok("before = f(1, [2, 3]) , after = g(\"a,b\")");
    assert_eq!(a.before, Some("f(1, [2, 3])".to_string()));
    assert_eq!(a.after, Some("g(\"a,b\")".to_string()));
}

#[test]
fn entries_need_no_separator() {
    let b = parse_ok("files = [\"a\"] env = [(\"K\", \"v\")]");
    assert_eq!(b.files, vec!["a".to_string()]);
    assert_eq!(b.env, vec![var("K", "v")]);
}

#[test]
fn expression_runs_to_the_next_comma() {
    assert_eq!(
        parse_attributes("before = setup() after = teardown()"),
        Err(ConfigError::Syntax { at: 9 })
    );
}

#[test]
fn unknown_key_is_rejected() {
    match parse_attributes("setup = f()") {
        Err(ConfigError::UnknownAttribute { name }) => assert_eq!(name, "setup"),
        other => panic!("unexpected {:?}", other),
    }
}

#[test]
fn duplicate_key_is_rejected() {
    match parse_attributes(r#"env = [("A", "1")], env = [("B", "2")]"#) {
        Err(ConfigError::DuplicateAttribute { name }) => assert_eq!(name, "env"),
        other => panic!("unexpected {:?}", other),
    }
    match parse_attributes("before = a(), before = b()") {
        Err(ConfigError::DuplicateAttribute { name }) => assert_eq!(name, "before"),
        other => panic!("unexpected {:?}", other),
    }
}

#[test]
fn unterminated_literal_is_a_syntax_error() {
    assert_eq!(parse_attributes(r#"files = ["abc]"#), Err(ConfigError::Syntax { at: 9 }));
}

#[test]
fn wrong_bracket_is_a_syntax_error() {
    assert_eq!(parse_attributes(r#"files = ("a")"#), Err(ConfigError::Syntax { at: 8 }));
    assert_eq!(parse_attributes(r#"files = ["a")"#), Err(ConfigError::Syntax { at: 12 }));
}

#[test]
fn env_pair_of_wrong_arity_is_a_syntax_error() {
    assert_eq!(parse_attributes(r#"env = [("A")]"#), Err(ConfigError::Syntax { at: 11 }));
    assert_eq!(parse_attributes(r#"env = [("A", "b", "c")]"#), Err(ConfigError::Syntax { at: 16 }));
}

#[test]
fn missing_expression_is_a_syntax_error() {
    assert_eq!(parse_attributes("before = , after = f()"), Err(ConfigError::Syntax { at: 9 }));
    assert_eq!(parse_attributes("after ="), Err(ConfigError::Syntax { at: 7 }));
}

#[test]
fn unparsable_expression_is_a_syntax_error() {
    assert_eq!(parse_attributes("before = 1 +"), Err(ConfigError::Syntax { at: 9 }));
}

#[test]
fn missing_equals_is_a_syntax_error() {
    assert_eq!(parse_attributes("files [\"a\"]"), Err(ConfigError::Syntax { at: 6 }));
}

#[test]
fn unbalanced_command_block_is_a_syntax_error() {
    assert_eq!(parse_attributes("cmd_before = { ls "), Err(ConfigError::Syntax { at: 13 }));
    assert_eq!(parse_attributes("cmd_after = ls"), Err(ConfigError::Syntax { at: 12 }));
}

#[test]
fn path_without_final_component_is_a_syntax_error() {
    assert_eq!(parse_attributes(r#"files = [".."]"#), Err(ConfigError::Syntax { at: 9 }));
    assert_eq!(parse_attributes(r#"files = ["a", "/"]"#), Err(ConfigError::Syntax { at: 14 }));
}

#[test]
fn final_component_of_paths() {
    assert_eq!(final_component(&"tests/foo".to_string()), Some("foo".to_string()));
    assert_eq!(final_component(&"tests/baz/".to_string()), Some("baz".to_string()));
    assert_eq!(final_component(&"bar".to_string()), Some("bar".to_string()));
    assert_eq!(final_component(&"a/..".to_string()), None);
    assert_eq!(final_component(&"".to_string()), None);
}

#[test]
fn error_messages_name_the_accepted_keys() {
    let e = ConfigError::UnknownAttribute { name: "x".to_string() };
    assert!(e.message().contains("cmd_after"));
}
