//! Conversion tests: an ordered configuration in, one script per dialect out.

use indexmap::IndexMap;
use xshe::convert::tests::TestCases;
use xshe::convert::to_shell_source;
use xshe::shells::{BashShell, FishShell, Shells, ZshShell};
use xshe::structure::{EnvVariableOption, EnvVariableValue, EnvironmentVariables};

fn text(s: &str) -> EnvVariableValue {
    EnvVariableValue::Text(s.to_string())
}

fn general(v: EnvVariableValue) -> EnvVariableOption {
    EnvVariableOption::General(v)
}

fn specific(entries: Vec<(&str, EnvVariableValue)>) -> EnvVariableOption {
    let mut m: IndexMap<String, EnvVariableValue> = IndexMap::new();
    for (k, v) in entries {
        m.insert(k.to_string(), v);
    }
    EnvVariableOption::Specific(m)
}

fn strings(items: &[&str]) -> Vec<String> {
    items.iter().map(|s| s.to_string()).collect()
}

fn build(entries: Vec<(&str, EnvVariableOption)>) -> EnvironmentVariables {
    let mut m: EnvironmentVariables = IndexMap::new();
    for (k, v) in entries {
        m.insert(k.to_string(), v);
    }
    m
}

fn assert_convert(map: &EnvironmentVariables, bash: &str, zsh: &str, fish: &str) {
    for (shell, expected) in [
        (Shells::Bash, bash),
        (Shells::Zsh, zsh),
        (Shells::Fish, fish),
    ] {
        assert_eq!(
            to_shell_source(map, &shell).trim_end_matches('\n'),
            expected.trim_end_matches('\n'),
            "wrong {:?} output",
            shell,
        );
    }
}

#[test]
fn test_convert_string() {
    let map = build(vec![("FOO", general(text("Bar")))]);
    assert_convert(
        &map,
        BashShell::CONVERT_STRING,
        ZshShell::CONVERT_STRING,
        FishShell::CONVERT_STRING,
    );
}

#[test]
fn test_convert_path() {
    let map = build(vec![(
        "PATH",
        general(EnvVariableValue::Path(strings(&[
            "/usr/local/bin",
            "/usr/bin",
            "/bin",
            "/usr/sbin",
            "/sbin",
        ]))),
    )]);
    assert_convert(
        &map,
        BashShell::CONVERT_PATH,
        ZshShell::CONVERT_PATH,
        FishShell::CONVERT_PATH,
    );
}

#[test]
fn test_convert_array() {
    let map = build(vec![(
        "ARRAY",
        general(EnvVariableValue::List(vec![strings(&[
            "array_item_1",
            "array_item_2",
            "array_item_3",
        ])])),
    )]);
    assert_convert(
        &map,
        BashShell::CONVERT_ARRAY,
        ZshShell::CONVERT_ARRAY,
        FishShell::CONVERT_ARRAY,
    );
}

#[test]
fn test_convert_set() {
    let map = build(vec![(
        "HOMEBREW_NO_ANALYTICS",
        general(EnvVariableValue::Flag(true)),
    )]);
    assert_convert(
        &map,
        BashShell::CONVERT_SET,
        ZshShell::CONVERT_SET,
        FishShell::CONVERT_SET,
    );
}

#[test]
fn test_convert_unset() {
    let map = build(vec![(
        "HOMEBREW_NO_ANALYTICS",
        general(EnvVariableValue::Flag(false)),
    )]);
    assert_convert(
        &map,
        BashShell::CONVERT_UNSET,
        ZshShell::CONVERT_UNSET,
        FishShell::CONVERT_UNSET,
    );
}

#[test]
fn test_convert_specific() {
    let map = build(vec![(
        "ONLY_FOR_BASH",
        specific(vec![("bash", text("Do people read test cases?"))]),
    )]);
    assert_convert(
        &map,
        BashShell::CONVERT_SPECIFIC,
        ZshShell::CONVERT_SPECIFIC,
        FishShell::CONVERT_SPECIFIC,
    );
}

#[test]
fn test_convert_specific_other() {
    let map = build(vec![(
        "SOME_VARIABLE",
        specific(vec![
            ("fish", text("you're pretty")),
            ("_", text("[ACCESS DENIED]")),
        ]),
    )]);
    assert_convert(
        &map,
        BashShell::CONVERT_SPECIFIC_OTHER,
        ZshShell::CONVERT_SPECIFIC_OTHER,
        FishShell::CONVERT_SPECIFIC_OTHER,
    );
}

#[test]
fn test_convert_specific_other_alt() {
    let map = build(vec![
        (
            "SOME_VARIABLE",
            specific(vec![
                ("fish", text("you're pretty")),
                ("_", text("[ACCESS DENIED]")),
            ]),
        ),
        ("ANOTHER_VARIABLE", specific(vec![("zsh", text("Zzz"))])),
    ]);
    assert_convert(
        &map,
        BashShell::CONVERT_SPECIFIC_OTHER_ALT,
        ZshShell::CONVERT_SPECIFIC_OTHER_ALT,
        FishShell::CONVERT_SPECIFIC_OTHER_ALT,
    );
}

#[test]
fn test_shell_variables_inline() {
    let map = build(vec![("WHERE_THE_HEART_IS", general(text("$HOME")))]);
    assert_convert(
        &map,
        BashShell::SHELL_VARIABLES_INLINE,
        ZshShell::SHELL_VARIABLES_INLINE,
        FishShell::SHELL_VARIABLES_INLINE,
    );
}

#[test]
fn test_shell_variables_block() {
    let map = build(vec![("AN_EXAMPLE", general(text("${HOME}less")))]);
    assert_convert(
        &map,
        BashShell::SHELL_VARIABLES_BLOCK,
        ZshShell::SHELL_VARIABLES_BLOCK,
        FishShell::SHELL_VARIABLES_BLOCK,
    );
}

#[test]
fn test_shell_commands() {
    let map = build(vec![("EDITOR", general(text("$(which micro)")))]);
    assert_convert(
        &map,
        BashShell::SHELL_COMMANDS,
        ZshShell::SHELL_COMMANDS,
        FishShell::SHELL_COMMANDS,
    );
}

#[test]
fn test_shell_home_tilde() {
    let map = build(vec![("HOME", general(text("~superatomic")))]);
    assert_convert(
        &map,
        BashShell::SHELL_HOME_TILDE,
        ZshShell::SHELL_HOME_TILDE,
        FishShell::SHELL_HOME_TILDE,
    );
}

#[test]
fn test_convert_character_escapes() {
    let map = build(vec![
        (
            "MESSAGE",
            general(text(r"\$() is literal, and $(echo '\)') is escaped.")),
        ),
        ("FAVORITE_CHARACTER", general(text(r"\\"))),
    ]);
    assert_convert(
        &map,
        BashShell::CONVERT_CHARACTER_ESCAPES,
        ZshShell::CONVERT_CHARACTER_ESCAPES,
        FishShell::CONVERT_CHARACTER_ESCAPES,
    );
}

#[test]
fn test_convert_escaping_quotes() {
    let map = build(vec![("MESSAGE", general(text("I 'love' books")))]);
    assert_convert(
        &map,
        BashShell::CONVERT_ESCAPING_QUOTES,
        ZshShell::CONVERT_ESCAPING_QUOTES,
        FishShell::CONVERT_ESCAPING_QUOTES,
    );
}

#[test]
fn test_convert_everything() {
    let map = build(vec![
        ("FOO", general(text("bar"))),
        (
            "BAZ",
            specific(vec![
                ("zsh", text("z\u{17e}")),
                (
                    "fish",
                    EnvVariableValue::Path(strings(&["gone", "$fishing"])),
                ),
                ("_", text("~other")),
            ]),
        ),
        (
            "ARRAY_TEST",
            general(EnvVariableValue::List(vec![strings(&["$home", "alone"])])),
        ),
        (
            "NOTHING_CHANGES",
            general(EnvVariableValue::Path(strings(&["$home", "alone"]))),
        ),
        ("TTY", general(text("$(tty)"))),
        ("THE_ECHO", general(text(r#"$(echo "\)")"#))),
        ("XSHE_IS_THE_BEST", general(EnvVariableValue::Flag(true))),
        (
            "XDG_CONFIG_HOME",
            specific(vec![("bash", EnvVariableValue::Flag(false))]),
        ),
    ]);
    assert_convert(
        &map,
        BashShell::CONVERT_ALL,
        ZshShell::CONVERT_ALL,
        FishShell::CONVERT_ALL,
    );
}
