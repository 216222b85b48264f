//! Parser tests: raw strings in, typed segment sequences out.

use xshe::parser::{parse_value, ValuePart, ValuePartKind};

fn segs(parts: &[ValuePart]) -> Vec<(ValuePartKind, String)> {
    parts
        .iter()
        .map(|p| (p.kind, p.value.clone()))
        .collect()
}

fn lit(s: &str) -> (ValuePartKind, String) {
    (ValuePartKind::Literal, s.to_string())
}

fn var(s: &str) -> (ValuePartKind, String) {
    (ValuePartKind::ShellVariable, s.to_string())
}

fn cmd(s: &str) -> (ValuePartKind, String) {
    (ValuePartKind::ShellCommand, s.to_string())
}

fn home(s: &str) -> (ValuePartKind, String) {
    (ValuePartKind::Home, s.to_string())
}

#[test]
fn parse_empty_input_gives_no_segments() {
    assert_eq!(segs(&parse_value("")), vec![]);
}

#[test]
fn parse_plain_text_is_one_literal() {
    assert_eq!(segs(&parse_value("plain text")), vec![lit("plain text")]);
}

#[test]
fn parse_variable_reference() {
    assert_eq!(segs(&parse_value("$HOME")), vec![var("HOME")]);
}

#[test]
fn parse_braced_variable_with_trailing_text() {
    assert_eq!(
        segs(&parse_value("${HOME}less")),
        vec![var("HOME"), lit("less")]
    );
}

#[test]
fn parse_command_substitution() {
    assert_eq!(segs(&parse_value("$(which micro)")), vec![cmd("which micro")]);
}

#[test]
fn parse_nested_parentheses_stay_balanced() {
    assert_eq!(
        segs(&parse_value("$(outer (inner) end)")),
        vec![cmd("outer (inner) end")]
    );
}

#[test]
fn parse_escaped_parenthesis_does_not_close() {
    assert_eq!(
        segs(&parse_value(r#"$(echo "\)")"#)),
        vec![cmd(r#"echo ")""#)]
    );
}

#[test]
fn parse_unbalanced_command_is_literal() {
    assert_eq!(segs(&parse_value("$(no close")), vec![lit("$(no close")]);
}

#[test]
fn parse_home_whole_string() {
    assert_eq!(segs(&parse_value("~superatomic")), vec![home("superatomic")]);
}

#[test]
fn parse_home_bare_tilde() {
    assert_eq!(segs(&parse_value("~")), vec![home("")]);
}

#[test]
fn parse_home_with_path_keeps_separator() {
    assert_eq!(
        segs(&parse_value("~foo/bar")),
        vec![home("foo"), lit("/bar")]
    );
}

#[test]
fn parse_tilde_mid_word_is_literal() {
    assert_eq!(segs(&parse_value("a~b")), vec![lit("a~b")]);
}

#[test]
fn parse_tilde_after_colon_starts_word() {
    assert_eq!(
        segs(&parse_value("p:~u")),
        vec![lit("p:"), home("u")]
    );
}

#[test]
fn parse_escaped_dollar_is_literal() {
    assert_eq!(segs(&parse_value(r"\$HOME")), vec![lit("$HOME")]);
}

#[test]
fn parse_escaped_backslash_collapses() {
    assert_eq!(segs(&parse_value(r"\\")), vec![lit(r"\")]);
}

#[test]
fn parse_bare_dollar_is_literal() {
    assert_eq!(segs(&parse_value("$ 1")), vec![lit("$ 1")]);
}

#[test]
fn parse_dollar_digit_is_literal() {
    assert_eq!(segs(&parse_value("$9")), vec![lit("$9")]);
}

#[test]
fn parse_adjacent_literal_runs_coalesce() {
    assert_eq!(
        segs(&parse_value(r"one \$ two \~ three")),
        vec![lit("one $ two ~ three")]
    );
}

#[test]
fn parse_mixed_segments_keep_order() {
    assert_eq!(
        segs(&parse_value("pre $VAR mid $(run) post")),
        vec![
            lit("pre "),
            var("VAR"),
            lit(" mid "),
            cmd("run"),
            lit(" post"),
        ]
    );
}

#[test]
fn parse_unclosed_brace_is_literal() {
    assert_eq!(segs(&parse_value("${oops")), vec![lit("${oops")]);
}
