//! Known-answer scripts per dialect, used by the test suite.

use vstd::prelude::*;

verus! {

/// The expected script for each conversion exercise, one constant per
/// exercise, implemented by the dialects the test suite checks.
pub trait TestCases {
    const CONVERT_STRING: &'static str;

    const CONVERT_ARRAY: &'static str;

    const CONVERT_PATH: &'static str;

    const CONVERT_SET: &'static str;

    const CONVERT_UNSET: &'static str;

    const CONVERT_SPECIFIC: &'static str;

    const CONVERT_SPECIFIC_OTHER: &'static str;

    const CONVERT_SPECIFIC_OTHER_ALT: &'static str;

    const SHELL_VARIABLES_INLINE: &'static str;

    const SHELL_VARIABLES_BLOCK: &'static str;

    const SHELL_COMMANDS: &'static str;

    const SHELL_HOME_TILDE: &'static str;

    const CONVERT_CHARACTER_ESCAPES: &'static str;

    const CONVERT_ESCAPING_QUOTES: &'static str;

    const CONVERT_ALL: &'static str;
}

impl TestCases for crate::shells::BashShell {
    const CONVERT_STRING: &'static str = r#"export FOO='Bar'"#;

    const CONVERT_ARRAY: &'static str = r#"export ARRAY='array_item_1':'array_item_2':'array_item_3'"#;

    const CONVERT_PATH: &'static str = r#"export PATH='/usr/local/bin':'/usr/bin':'/bin':'/usr/sbin':'/sbin'"#;

    const CONVERT_SET: &'static str = r#"export HOMEBREW_NO_ANALYTICS=1"#;

    const CONVERT_UNSET: &'static str = r#"unset HOMEBREW_NO_ANALYTICS"#;

    const CONVERT_SPECIFIC: &'static str = r#"export ONLY_FOR_BASH='Do people read test cases?'"#;

    const CONVERT_SPECIFIC_OTHER: &'static str = r#"export SOME_VARIABLE='[ACCESS DENIED]'"#;

    const CONVERT_SPECIFIC_OTHER_ALT: &'static str = r#"export SOME_VARIABLE='[ACCESS DENIED]'"#;

    const SHELL_VARIABLES_INLINE: &'static str = r#"export WHERE_THE_HEART_IS="$HOME""#;

    const SHELL_VARIABLES_BLOCK: &'static str = r#"export AN_EXAMPLE="$HOME"'less'"#;

    const SHELL_COMMANDS: &'static str = r#"export EDITOR=$(eval 'which micro')"#;

    const SHELL_HOME_TILDE: &'static str = r#"export HOME=$(eval echo "~superatomic")"#;

    const CONVERT_CHARACTER_ESCAPES: &'static str = "export MESSAGE='$() is literal, and '$(eval 'echo '\"'\"')'\"'\")' is escaped.'\nexport FAVORITE_CHARACTER='\\'\n";

    const CONVERT_ESCAPING_QUOTES: &'static str = r#"export MESSAGE='I '"'"'love'"'"' books'"#;

    const CONVERT_ALL: &'static str = "export FOO='bar'\nexport BAZ=$(eval echo \"~other\")\nexport ARRAY_TEST=\"$home\":'alone'\nexport NOTHING_CHANGES=\"$home\":'alone'\nexport TTY=$(eval 'tty')\nexport THE_ECHO=$(eval 'echo \")\"')\nexport XSHE_IS_THE_BEST=1\nunset XDG_CONFIG_HOME\n";
}

impl TestCases for crate::shells::ZshShell {
    const CONVERT_STRING: &'static str = r#"export FOO='Bar'"#;

    const CONVERT_ARRAY: &'static str = r#"export ARRAY='array_item_1':'array_item_2':'array_item_3'"#;

    const CONVERT_PATH: &'static str = r#"export PATH='/usr/local/bin':'/usr/bin':'/bin':'/usr/sbin':'/sbin'"#;

    const CONVERT_SET: &'static str = r#"export HOMEBREW_NO_ANALYTICS=1"#;

    const CONVERT_UNSET: &'static str = r#"unset HOMEBREW_NO_ANALYTICS"#;

    const CONVERT_SPECIFIC: &'static str = "";

    const CONVERT_SPECIFIC_OTHER: &'static str = r#"export SOME_VARIABLE='[ACCESS DENIED]'"#;

    const CONVERT_SPECIFIC_OTHER_ALT: &'static str = "export SOME_VARIABLE='[ACCESS DENIED]'\nexport ANOTHER_VARIABLE='Zzz'\n";

    const SHELL_VARIABLES_INLINE: &'static str = r#"export WHERE_THE_HEART_IS="$HOME""#;

    const SHELL_VARIABLES_BLOCK: &'static str = r#"export AN_EXAMPLE="$HOME"'less'"#;

    const SHELL_COMMANDS: &'static str = r#"export EDITOR=$(eval 'which micro')"#;

    const SHELL_HOME_TILDE: &'static str = r#"export HOME=$(eval echo "~superatomic")"#;

    const CONVERT_CHARACTER_ESCAPES: &'static str = "export MESSAGE='$() is literal, and '$(eval 'echo '\"'\"')'\"'\")' is escaped.'\nexport FAVORITE_CHARACTER='\\'\n";

    const CONVERT_ESCAPING_QUOTES: &'static str = r#"export MESSAGE='I '"'"'love'"'"' books'"#;

    const CONVERT_ALL: &'static str = "export FOO='bar'\nexport BAZ='z\u{17e}'\nexport ARRAY_TEST=\"$home\":'alone'\nexport NOTHING_CHANGES=\"$home\":'alone'\nexport TTY=$(eval 'tty')\nexport THE_ECHO=$(eval 'echo \")\"')\nexport XSHE_IS_THE_BEST=1\n";
}

impl TestCases for crate::shells::FishShell {
    const CONVERT_STRING: &'static str = r#"set -gx FOO 'Bar'"#;

    const CONVERT_ARRAY: &'static str = r#"set -gx ARRAY 'array_item_1':'array_item_2':'array_item_3'"#;

    const CONVERT_PATH: &'static str = r#"set -gx --path PATH '/usr/local/bin':'/usr/bin':'/bin':'/usr/sbin':'/sbin'"#;

    const CONVERT_SET: &'static str = r#"set -gx HOMEBREW_NO_ANALYTICS 1"#;

    const CONVERT_UNSET: &'static str = r#"set -ge HOMEBREW_NO_ANALYTICS"#;

    const CONVERT_SPECIFIC: &'static str = "";

    const CONVERT_SPECIFIC_OTHER: &'static str = r"set -gx SOME_VARIABLE 'you\'re pretty'";

    const CONVERT_SPECIFIC_OTHER_ALT: &'static str = r"set -gx SOME_VARIABLE 'you\'re pretty'";

    const SHELL_VARIABLES_INLINE: &'static str = r#"set -gx WHERE_THE_HEART_IS "$HOME""#;

    const SHELL_VARIABLES_BLOCK: &'static str = r#"set -gx AN_EXAMPLE "$HOME"'less'"#;

    const SHELL_COMMANDS: &'static str = r#"set -gx EDITOR (eval 'which micro')"#;

    const SHELL_HOME_TILDE: &'static str = r#"set -gx HOME (eval echo "~superatomic")"#;

    const CONVERT_CHARACTER_ESCAPES: &'static str = "set -gx MESSAGE '$() is literal, and '(eval 'echo \\')\\'')' is escaped.'\nset -gx FAVORITE_CHARACTER '\\\\'";

    const CONVERT_ESCAPING_QUOTES: &'static str = r"set -gx MESSAGE 'I \'love\' books'";

    const CONVERT_ALL: &'static str = "set -gx FOO 'bar'\nset -gx --path BAZ 'gone':\"$fishing\"\nset -gx ARRAY_TEST \"$home\":'alone'\nset -gx --path NOTHING_CHANGES \"$home\":'alone'\nset -gx TTY (eval 'tty')\nset -gx THE_ECHO (eval 'echo \")\"')\nset -gx XSHE_IS_THE_BEST 1\n";
}

} // verus!
