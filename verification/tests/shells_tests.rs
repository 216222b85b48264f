//! Dialect rendering tests: quoting, statements, and the trait surface.

use xshe::parser::ValuePartKind;
use xshe::shells::{
    expand_value, set_variable, single_quote, unset_variable, BashShell, Behavior, ElvishShell,
    FishShell, Shell, Shells, XonshShell,
};

#[test]
fn quote_default_plain() {
    assert_eq!(single_quote(&Shells::Bash, "Bar"), "'Bar'");
}

#[test]
fn quote_default_embedded_quotes() {
    assert_eq!(
        single_quote(&Shells::Zsh, "I 'love' books"),
        r#"'I '"'"'love'"'"' books'"#
    );
}

#[test]
fn quote_default_only_quote() {
    assert_eq!(single_quote(&Shells::Bash, "'"), r#""'""#);
}

#[test]
fn quote_default_empty() {
    assert_eq!(single_quote(&Shells::Dash, ""), "");
}

#[test]
fn quote_fish_escapes_quote_and_backslash() {
    assert_eq!(single_quote(&Shells::Fish, r"a'b\c"), r"'a\'b\\c'");
}

#[test]
fn quote_xonsh_escapes_without_quotes() {
    assert_eq!(single_quote(&Shells::Xonsh, r"a'b\c"), r"a\'b\\c");
}

#[test]
fn quote_elvish_wraps_verbatim() {
    assert_eq!(single_quote(&Shells::Elvish, "plain"), "'plain'");
}

#[test]
fn set_statement_per_dialect() {
    assert_eq!(set_variable(&Shells::Bash, "N", "'v'", false), "export N='v'");
    assert_eq!(set_variable(&Shells::Nu, "N", "'v'", true), "export N='v'");
    assert_eq!(
        set_variable(&Shells::Elvish, "N", "v", false),
        "set-env N 'v'"
    );
    assert_eq!(set_variable(&Shells::Fish, "N", "'v'", false), "set -gx N 'v'");
    assert_eq!(
        set_variable(&Shells::Fish, "N", "'v'", true),
        "set -gx --path N 'v'"
    );
    assert_eq!(set_variable(&Shells::Xonsh, "N", "1", false), "$N = True");
    assert_eq!(set_variable(&Shells::Xonsh, "N", "v", false), "$N = f\"v\"");
}

#[test]
fn unset_statement_per_dialect() {
    assert_eq!(unset_variable(&Shells::Bash, "N"), "unset N");
    assert_eq!(unset_variable(&Shells::Dash, "N"), "unset N");
    assert_eq!(unset_variable(&Shells::Elvish, "N"), "del-env N");
    assert_eq!(unset_variable(&Shells::Fish, "N"), "set -ge N");
    assert_eq!(unset_variable(&Shells::Xonsh, "N"), "del $N");
}

#[test]
fn expand_concatenates_segments_without_separators() {
    assert_eq!(
        expand_value(&Shells::Bash, "${HOME}less"),
        r#""$HOME"'less'"#
    );
    assert_eq!(expand_value(&Shells::Bash, ""), "");
    assert_eq!(
        expand_value(&Shells::Xonsh, "$(tty) now"),
        "$(tty) now"
    );
    assert_eq!(expand_value(&Shells::Elvish, "~anyone"), "$home");
    assert_eq!(
        expand_value(&Shells::Fish, "~user"),
        "(eval echo \"~user\")"
    );
}

#[test]
fn dialect_names() {
    assert_eq!(Shells::Bash.name(), "bash");
    assert_eq!(Shells::Dash.name(), "dash");
    assert_eq!(Shells::Elvish.name(), "elvish");
    assert_eq!(Shells::Fish.name(), "fish");
    assert_eq!(Shells::Nu.name(), "nu");
    assert_eq!(Shells::Xonsh.name(), "xonsh");
    assert_eq!(Shells::Zsh.name(), "zsh");
}

#[test]
fn behavior_of_identifier_matches_free_functions() {
    let b = Shells::Fish.create_behavior();
    assert_eq!(b, Shells::Fish);
    assert_eq!(b.set_variable("N", "'v'", true), "set -gx --path N 'v'");
    assert_eq!(b.unset_variable("N"), "set -ge N");
    assert_eq!(b.single_quote("x"), "'x'");
    assert_eq!(b.expand_value("$V"), "\"$V\"");
    assert_eq!(
        b.shell_format(&ValuePartKind::ShellCommand, "run"),
        "(eval 'run')"
    );
}

#[test]
fn behavior_of_marker_structs() {
    assert_eq!(BashShell.set_variable("N", "1", false), "export N=1");
    assert_eq!(ElvishShell.unset_variable("N"), "del-env N");
    assert_eq!(XonshShell.expand_value("v"), "v");
    assert_eq!(FishShell.single_quote("a'b"), r"'a\'b'");
}

#[test]
fn shell_handles_construct() {
    let _bash: Shell<BashShell> = Shell::new();
    let _fish: Shell<FishShell> = Shell::default();
}
