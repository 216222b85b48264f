//! Shell dialects and their rendering rules.
//!
//! Each supported shell is one identifier in the closed [`Shells`] union; an
//! exhaustive match dispatches to per-dialect pure functions for quoting,
//! segment rendering, and set/unset statements.  The [`Behavior`] trait gives
//! the same one-function-per-concern surface on the dialect identifier and on
//! the per-shell marker structs.

use crate::parser::ValuePartKind;
use vstd::prelude::*;

verus! {

/// The closed set of supported shell dialects.
#[derive(Copy, Clone, PartialEq, Eq, Hash, Debug, Structural)]
pub enum Shells {
    Bash,
    Dash,
    Elvish,
    Fish,
    Nu,
    Xonsh,
    Zsh,
}

/// The configuration-file name of a dialect.
pub open spec fn spec_name(shell: Shells) -> Seq<char> {
    match shell {
        Shells::Bash => "bash"@,
        Shells::Dash => "dash"@,
        Shells::Elvish => "elvish"@,
        Shells::Fish => "fish"@,
        Shells::Nu => "nu"@,
        Shells::Xonsh => "xonsh"@,
        Shells::Zsh => "zsh"@,
    }
}

/// Whether a dialect renders with the shared POSIX-family defaults.
pub open spec fn is_posix_family(shell: Shells) -> bool {
    match shell {
        Shells::Bash | Shells::Dash | Shells::Nu | Shells::Zsh => true,
        _ => false,
    }
}

// ---------------------------------------------------------------------------
// Quoting, POSIX family: split on the quote character, wrap each non-empty
// piece in single quotes, splice the pieces with a double-quoted quote.
// ---------------------------------------------------------------------------
/// The first position at or after `j` that holds a single quote (or the end).
pub open spec fn quote_end(s: Seq<char>, j: int) -> int
    decreases s.len() - j,
{
    if 0 <= j < s.len() && s[j] != '\'' {
        quote_end(s, j + 1)
    } else {
        j
    }
}

pub proof fn lemma_quote_end_bounds(s: Seq<char>, j: int)
    requires
        0 <= j <= s.len(),
    ensures
        j <= quote_end(s, j) <= s.len(),
    decreases s.len() - j,
{
    if j < s.len() && s[j] != '\'' {
        lemma_quote_end_bounds(s, j + 1);
    }
}

/// One quote-free piece, wrapped in single quotes unless empty.
pub open spec fn quote_piece(p: Seq<char>) -> Seq<char> {
    if p.len() == 0 {
        Seq::empty()
    } else {
        seq!['\''] + p + seq!['\'']
    }
}

/// The splice between adjacent pieces: a double-quoted single quote.
pub open spec fn quote_splice() -> Seq<char> {
    seq!['"', '\'', '"']
}

/// Walks `s` from position `i`, emitting wrapped pieces and splices into `out`.
pub open spec fn quote_walk(s: Seq<char>, i: int, out: Seq<char>) -> Seq<char>
    decreases s.len() - i,
    when 0 <= i
    via quote_walk_dec
{
    let q = quote_end(s, i);
    if q >= s.len() {
        out + quote_piece(s.subrange(i, s.len() as int))
    } else {
        quote_walk(s, q + 1, out + quote_piece(s.subrange(i, q)) + quote_splice())
    }
}

#[via_fn]
proof fn quote_walk_dec(s: Seq<char>, i: int, out: Seq<char>) {
    if i <= s.len() {
        lemma_quote_end_bounds(s, i);
    }
}

/// The POSIX-family quoted form of a literal.
pub open spec fn spec_quote_default(s: Seq<char>) -> Seq<char> {
    quote_walk(s, 0, Seq::empty())
}

// ---------------------------------------------------------------------------
// Quoting, escape-based dialects: fish quotes and backslash-escapes, xonsh
// only backslash-escapes.
// ---------------------------------------------------------------------------
/// One character under backslash escaping of `\` and `'`.
pub open spec fn esc_char(c: char) -> Seq<char> {
    if c == '\\' {
        seq!['\\', '\\']
    } else if c == '\'' {
        seq!['\\', '\'']
    } else {
        seq![c]
    }
}

/// `s` with every `\` and `'` backslash-escaped.
pub open spec fn esc_slashed(s: Seq<char>) -> Seq<char>
    decreases s.len(),
{
    if s.len() == 0 {
        Seq::empty()
    } else {
        esc_char(s[0]) + esc_slashed(s.drop_first())
    }
}

pub proof fn lemma_esc_slashed_snoc(s: Seq<char>, c: char)
    ensures
        esc_slashed(s.push(c)) == esc_slashed(s) + esc_char(c),
    decreases s.len(),
{
    reveal_with_fuel(esc_slashed, 3);
    if s.len() == 0 {
        assert(s.push(c).drop_first() =~= Seq::<char>::empty());
        assert(esc_slashed(s.push(c)) =~= esc_slashed(s) + esc_char(c));
    } else {
        let t = s.push(c);
        assert(t.drop_first() =~= s.drop_first().push(c));
        assert(t[0] == s[0]);
        lemma_esc_slashed_snoc(s.drop_first(), c);
        assert(esc_slashed(t) == esc_char(t[0]) + esc_slashed(t.drop_first()));
        assert(esc_slashed(s) == esc_char(s[0]) + esc_slashed(s.drop_first()));
        assert(esc_slashed(t) =~= esc_slashed(s) + esc_char(c));
    }
}

/// The fish quoted form of a literal.
pub open spec fn spec_quote_fish(s: Seq<char>) -> Seq<char> {
    seq!['\''] + esc_slashed(s) + seq!['\'']
}

/// The xonsh quoted form of a literal (escapes only; `set_variable` adds the
/// surrounding f-string).
pub open spec fn spec_quote_xonsh(s: Seq<char>) -> Seq<char> {
    esc_slashed(s)
}

/// The elvish quoted form of a literal: plain single quotes, no escaping.
pub open spec fn spec_quote_elvish(s: Seq<char>) -> Seq<char> {
    seq!['\''] + s + seq!['\'']
}

/// The quoted form of a literal in the given dialect.
pub open spec fn spec_single_quote(shell: Shells, s: Seq<char>) -> Seq<char> {
    match shell {
        Shells::Elvish => spec_quote_elvish(s),
        Shells::Fish => spec_quote_fish(s),
        Shells::Xonsh => spec_quote_xonsh(s),
        _ => spec_quote_default(s),
    }
}

// ---------------------------------------------------------------------------
// Segment rendering.
// ---------------------------------------------------------------------------
/// The POSIX-family surface form of one segment.
pub open spec fn spec_format_default(kind: ValuePartKind, text: Seq<char>) -> Seq<char> {
    match kind {
        ValuePartKind::Literal => spec_quote_default(text),
        ValuePartKind::ShellVariable => seq!['"', '$'] + text + seq!['"'],
        ValuePartKind::ShellCommand => "$(eval "@ + spec_quote_default(text) + ")"@,
        ValuePartKind::Home => "$(eval echo \"~"@ + text + "\")"@,
    }
}

/// The surface form of one segment in the given dialect.
pub open spec fn spec_shell_format(shell: Shells, kind: ValuePartKind, text: Seq<char>) -> Seq<
    char,
> {
    match shell {
        Shells::Elvish => match kind {
            ValuePartKind::Literal => spec_quote_elvish(text),
            ValuePartKind::ShellVariable => seq!['$'] + text,
            ValuePartKind::ShellCommand => "(eval "@ + spec_quote_elvish(text) + ")"@,
            ValuePartKind::Home => "$home"@,
        },
        Shells::Fish => match kind {
            ValuePartKind::Literal => spec_quote_fish(text),
            ValuePartKind::ShellVariable => seq!['"', '$'] + text + seq!['"'],
            ValuePartKind::ShellCommand => "(eval "@ + spec_quote_fish(text) + ")"@,
            ValuePartKind::Home => "(eval echo \"~"@ + text + "\")"@,
        },
        Shells::Xonsh => match kind {
            ValuePartKind::Literal => spec_quote_xonsh(text),
            ValuePartKind::ShellVariable => seq!['$'] + text,
            ValuePartKind::ShellCommand => "$("@ + text + ")"@,
            ValuePartKind::Home => "$(~"@ + text + ")"@,
        },
        _ => spec_format_default(kind, text),
    }
}

/// The concatenation of the rendered forms of `segs`, in order, with no
/// separators between segments.
pub open spec fn spec_format_segs(shell: Shells, segs: Seq<crate::parser::Seg>) -> Seq<char>
    decreases segs.len(),
{
    if segs.len() == 0 {
        Seq::empty()
    } else {
        spec_shell_format(shell, segs[0].0, segs[0].1) + spec_format_segs(shell, segs.drop_first())
    }
}

pub proof fn lemma_format_segs_snoc(shell: Shells, segs: Seq<crate::parser::Seg>, x: crate::parser::Seg)
    ensures
        spec_format_segs(shell, segs.push(x)) == spec_format_segs(shell, segs) + spec_shell_format(
            shell,
            x.0,
            x.1,
        ),
    decreases segs.len(),
{
    reveal_with_fuel(spec_format_segs, 3);
    if segs.len() == 0 {
        assert(segs.push(x).drop_first() =~= Seq::<crate::parser::Seg>::empty());
        assert(spec_format_segs(shell, segs.push(x)) =~= spec_format_segs(shell, segs)
            + spec_shell_format(shell, x.0, x.1));
    } else {
        let t = segs.push(x);
        assert(t.drop_first() =~= segs.drop_first().push(x));
        assert(t[0] == segs[0]);
        lemma_format_segs_snoc(shell, segs.drop_first(), x);
        assert(spec_format_segs(shell, t) == spec_shell_format(shell, t[0].0, t[0].1)
            + spec_format_segs(shell, t.drop_first()));
        assert(spec_format_segs(shell, segs) == spec_shell_format(shell, segs[0].0, segs[0].1)
            + spec_format_segs(shell, segs.drop_first()));
        assert(spec_format_segs(shell, t) =~= spec_format_segs(shell, segs) + spec_shell_format(
            shell,
            x.0,
            x.1,
        ));
    }
}

/// The dialect-native right-hand side of an assignment whose raw value is `s`:
/// parse, then render every segment in order.
pub open spec fn spec_expand_value(shell: Shells, s: Seq<char>) -> Seq<char> {
    spec_format_segs(shell, crate::parser::spec_parse(s))
}

// ---------------------------------------------------------------------------
// Whole statements.
// ---------------------------------------------------------------------------
/// The dialect's assignment statement for an already-rendered value.
pub open spec fn spec_set_variable(
    shell: Shells,
    name: Seq<char>,
    value: Seq<char>,
    is_path: bool,
) -> Seq<char> {
    match shell {
        Shells::Elvish => "set-env "@ + name + " "@ + spec_quote_elvish(value),
        Shells::Fish => if is_path {
            "set -gx --path "@ + name + " "@ + value
        } else {
            "set -gx "@ + name + " "@ + value
        },
        Shells::Xonsh => if value == "1"@ {
            seq!['$'] + name + " = True"@
        } else {
            seq!['$'] + name + " = f\""@ + value + seq!['"']
        },
        _ => "export "@ + name + seq!['='] + value,
    }
}

/// The dialect's removal statement.
pub open spec fn spec_unset_variable(shell: Shells, name: Seq<char>) -> Seq<char> {
    match shell {
        Shells::Elvish => "del-env "@ + name,
        Shells::Fish => "set -ge "@ + name,
        Shells::Xonsh => "del $"@ + name,
        _ => "unset "@ + name,
    }
}

// ---------------------------------------------------------------------------
// Round-trip laws: what the target shell reads back out of a quoted literal
// is exactly the literal that went in.
// ---------------------------------------------------------------------------
/// The first position at or after `j` that holds `c` (or the end).
pub open spec fn find_from(s: Seq<char>, j: int, c: char) -> int
    decreases s.len() - j,
{
    if 0 <= j < s.len() && s[j] != c {
        find_from(s, j + 1, c)
    } else {
        j
    }
}

pub proof fn lemma_find_from_bounds(s: Seq<char>, j: int, c: char)
    requires
        0 <= j <= s.len(),
    ensures
        j <= find_from(s, j, c) <= s.len(),
    decreases s.len() - j,
{
    if j < s.len() && s[j] != c {
        lemma_find_from_bounds(s, j + 1, c);
    }
}

pub proof fn lemma_find_from_at(s: Seq<char>, j: int, c: char, m: int)
    requires
        0 <= j <= m <= s.len(),
        forall|k: int| j <= k < m ==> s[k] != c,
        m == s.len() || s[m] == c,
    ensures
        find_from(s, j, c) == m,
    decreases m - j,
{
    if j < m {
        lemma_find_from_at(s, j + 1, c, m);
    }
}

pub proof fn lemma_quote_end_chars(s: Seq<char>, j: int)
    requires
        0 <= j <= s.len(),
    ensures
        j <= quote_end(s, j) <= s.len(),
        forall|k: int| j <= k < quote_end(s, j) ==> s[k] != '\'',
        quote_end(s, j) < s.len() ==> s[quote_end(s, j)] == '\'',
    decreases s.len() - j,
{
    if j < s.len() && s[j] != '\'' {
        lemma_quote_end_chars(s, j + 1);
    }
}

/// How a POSIX-family shell reads a concatenation of quoted pieces: a piece
/// between single quotes is taken verbatim, a piece between double quotes is
/// taken verbatim, everything outside quotes is taken as it stands.  An
/// unclosed quote takes the rest of the input.
pub open spec fn shq_eval(s: Seq<char>) -> Seq<char>
    decreases s.len(),
    when true
    via shq_eval_dec
{
    if s.len() == 0 {
        Seq::empty()
    } else if s[0] == '\'' || s[0] == '"' {
        let e = find_from(s, 1, s[0]);
        if e >= s.len() {
            s.subrange(1, s.len() as int)
        } else {
            s.subrange(1, e) + shq_eval(s.subrange(e + 1, s.len() as int))
        }
    } else {
        seq![s[0]] + shq_eval(s.drop_first())
    }
}

#[via_fn]
proof fn shq_eval_dec(s: Seq<char>) {
    if s.len() > 0 && (s[0] == '\'' || s[0] == '"') {
        lemma_find_from_bounds(s, 1, s[0]);
    }
}

proof fn lemma_shq_eval_quoted(p: Seq<char>, rest: Seq<char>)
    requires
        forall|k: int| 0 <= k < p.len() ==> p[k] != '\'',
    ensures
        shq_eval(quote_piece(p) + rest) == p + shq_eval(rest),
{
    if p.len() == 0 {
        assert(quote_piece(p) + rest =~= rest);
        assert(p + shq_eval(rest) =~= shq_eval(rest));
    } else {
        let t = quote_piece(p) + rest;
        assert(t[0] == '\'');
        assert(forall|k: int| 1 <= k < 1 + p.len() ==> t[k] == p[k - 1] && t[k] != '\'');
        assert(t[1 + p.len() as int] == '\'');
        lemma_find_from_at(t, 1, '\'', 1 + p.len() as int);
        let e = find_from(t, 1, '\'');
        assert(e == 1 + p.len() as int);
        assert(e < t.len());
        assert(t.subrange(1, e) =~= p);
        assert(t.subrange(e + 1, t.len() as int) =~= rest);
    }
}

proof fn lemma_shq_eval_splice(rest: Seq<char>)
    ensures
        shq_eval(quote_splice() + rest) == seq!['\''] + shq_eval(rest),
{
    let t = quote_splice() + rest;
    assert(t[0] == '"');
    assert(t[1] == '\'');
    assert(t[2] == '"');
    lemma_find_from_at(t, 1, '"', 2);
    assert(t.subrange(1, 2) =~= seq!['\'']);
    assert(t.subrange(3, t.len() as int) =~= rest);
}

proof fn lemma_quote_walk_prefix(s: Seq<char>, i: int, out: Seq<char>)
    requires
        0 <= i <= s.len(),
    ensures
        quote_walk(s, i, out) == out + quote_walk(s, i, Seq::empty()),
    decreases s.len() - i,
{
    lemma_quote_end_chars(s, i);
    let q = quote_end(s, i);
    if q >= s.len() {
        let piece = quote_piece(s.subrange(i, s.len() as int));
        assert(quote_walk(s, i, out) == out + piece);
        assert(quote_walk(s, i, Seq::empty()) == Seq::<char>::empty() + piece);
        assert(out + piece =~= out + (Seq::<char>::empty() + piece));
    } else {
        let piece = quote_piece(s.subrange(i, q));
        let t = quote_walk(s, q + 1, Seq::<char>::empty());
        lemma_quote_walk_prefix(s, q + 1, out + piece + quote_splice());
        lemma_quote_walk_prefix(s, q + 1, Seq::<char>::empty() + piece + quote_splice());
        assert(quote_walk(s, i, out) == (out + piece + quote_splice()) + t);
        assert(quote_walk(s, i, Seq::<char>::empty()) == (Seq::<char>::empty() + piece
            + quote_splice()) + t);
        assert((out + piece + quote_splice()) + t =~= out + ((Seq::<char>::empty() + piece
            + quote_splice()) + t));
    }
}

proof fn lemma_quote_walk_round_trip(s: Seq<char>, i: int)
    requires
        0 <= i <= s.len(),
    ensures
        shq_eval(quote_walk(s, i, Seq::empty())) == s.subrange(i, s.len() as int),
    decreases s.len() - i,
{
    lemma_quote_end_chars(s, i);
    let q = quote_end(s, i);
    if q >= s.len() {
        let p = s.subrange(i, s.len() as int);
        assert(quote_walk(s, i, Seq::empty()) =~= quote_piece(p));
        assert(quote_piece(p) =~= quote_piece(p) + Seq::<char>::empty());
        lemma_shq_eval_quoted(p, Seq::empty());
        assert(p + shq_eval(Seq::<char>::empty()) =~= p);
    } else {
        let p = s.subrange(i, q);
        let piece = quote_piece(p);
        let tail = quote_walk(s, q + 1, Seq::<char>::empty());
        lemma_quote_walk_prefix(s, q + 1, Seq::<char>::empty() + piece + quote_splice());
        assert(quote_walk(s, i, Seq::<char>::empty()) == (Seq::<char>::empty() + piece
            + quote_splice()) + tail);
        assert((Seq::<char>::empty() + piece + quote_splice()) + tail =~= piece + (quote_splice()
            + tail));
        lemma_shq_eval_quoted(p, quote_splice() + tail);
        lemma_shq_eval_splice(tail);
        lemma_quote_walk_round_trip(s, q + 1);
        assert(s[q] == '\'');
        assert(p + (seq!['\''] + s.subrange(q + 1, s.len() as int)) =~= s.subrange(
            i,
            s.len() as int,
        ));
    }
}

/// Round trip of POSIX-family quoting: however many quote characters the
/// literal holds, a shell that reads the quoted form gets the literal back
/// exactly.
pub proof fn lemma_quote_default_round_trip(s: Seq<char>)
    ensures
        shq_eval(spec_quote_default(s)) == s,
{
    lemma_quote_walk_round_trip(s, 0);
    assert(s.subrange(0, s.len() as int) =~= s);
}

/// Undoes backslash escaping: a backslash takes the character after it
/// verbatim.
pub open spec fn unescape_slashed(t: Seq<char>) -> Seq<char>
    decreases t.len(),
{
    if t.len() == 0 {
        Seq::empty()
    } else if t[0] == '\\' && t.len() >= 2 {
        seq![t[1]] + unescape_slashed(t.subrange(2, t.len() as int))
    } else {
        seq![t[0]] + unescape_slashed(t.drop_first())
    }
}

/// Round trip of backslash escaping (the xonsh literal form): unescaping the
/// escaped text yields the original, whatever backslashes and quotes it held.
pub proof fn lemma_esc_slashed_round_trip(s: Seq<char>)
    ensures
        unescape_slashed(esc_slashed(s)) == s,
    decreases s.len(),
{
    if s.len() == 0 {
    } else {
        let c = s[0];
        let t = esc_slashed(s);
        lemma_esc_slashed_round_trip(s.drop_first());
        assert(t == esc_char(c) + esc_slashed(s.drop_first()));
        if c == '\\' || c == '\'' {
            assert(t[0] == '\\');
            assert(t[1] == c);
            assert(t.subrange(2, t.len() as int) =~= esc_slashed(s.drop_first()));
            assert(seq![c] + unescape_slashed(esc_slashed(s.drop_first())) =~= s);
        } else {
            assert(t[0] == c);
            assert(t.drop_first() =~= esc_slashed(s.drop_first()));
            assert(seq![c] + unescape_slashed(esc_slashed(s.drop_first())) =~= s);
        }
    }
}

/// How fish reads text inside single quotes: a backslash escapes the next
/// character, an unescaped quote closes the string, everything else is taken
/// verbatim.  Text after the closing quote is taken as it stands.
pub open spec fn fish_eval_in(t: Seq<char>) -> Seq<char>
    decreases t.len(),
{
    if t.len() == 0 {
        Seq::empty()
    } else if t[0] == '\\' && t.len() >= 2 {
        seq![t[1]] + fish_eval_in(t.subrange(2, t.len() as int))
    } else if t[0] == '\'' {
        t.drop_first()
    } else {
        seq![t[0]] + fish_eval_in(t.drop_first())
    }
}

proof fn lemma_fish_eval_body(s: Seq<char>)
    ensures
        fish_eval_in(esc_slashed(s) + seq!['\'']) == s,
    decreases s.len(),
{
    if s.len() == 0 {
        let t = esc_slashed(s) + seq!['\''];
        assert(t =~= seq!['\'']);
        assert(t[0] == '\'');
        assert(t.drop_first() =~= Seq::<char>::empty());
    } else {
        let c = s[0];
        let t = esc_slashed(s) + seq!['\''];
        lemma_fish_eval_body(s.drop_first());
        assert(esc_slashed(s) == esc_char(c) + esc_slashed(s.drop_first()));
        if c == '\\' || c == '\'' {
            assert(t[0] == '\\');
            assert(t[1] == c);
            assert(t.subrange(2, t.len() as int) =~= esc_slashed(s.drop_first()) + seq!['\'']);
            assert(seq![c] + fish_eval_in(esc_slashed(s.drop_first()) + seq!['\'']) =~= s);
        } else {
            assert(t[0] == c);
            assert(t[0] != '\\' && t[0] != '\'');
            assert(t.drop_first() =~= esc_slashed(s.drop_first()) + seq!['\'']);
            assert(seq![c] + fish_eval_in(esc_slashed(s.drop_first()) + seq!['\'']) =~= s);
        }
    }
}

/// Round trip of fish quoting: the quoted form opens with a quote, and
/// reading its body back with fish's escape rules yields the literal exactly.
pub proof fn lemma_quote_fish_round_trip(s: Seq<char>)
    ensures
        spec_quote_fish(s)[0] == '\'',
        fish_eval_in(spec_quote_fish(s).drop_first()) == s,
{
    assert(spec_quote_fish(s).drop_first() =~= esc_slashed(s) + seq!['\'']);
    lemma_fish_eval_body(s);
}

/// Round trip of elvish quoting, which escapes nothing: it holds for every
/// literal free of the quote character.
pub proof fn lemma_quote_elvish_round_trip(s: Seq<char>)
    requires
        forall|k: int| 0 <= k < s.len() ==> s[k] != '\'',
    ensures
        shq_eval(spec_quote_elvish(s)) == s,
{
    if s.len() == 0 {
        let t = spec_quote_elvish(s);
        assert(t =~= seq!['\'', '\'']);
        assert(t[0] == '\'');
        lemma_find_from_at(t, 1, '\'', 1);
        assert(t.subrange(2, 2) =~= Seq::<char>::empty());
        assert(t.subrange(1, 1) =~= Seq::<char>::empty());
        assert(shq_eval(Seq::<char>::empty()) == Seq::<char>::empty());
        assert(shq_eval(t) == t.subrange(1, 1) + shq_eval(t.subrange(2, 2)));
        assert(shq_eval(t) =~= s);
    } else {
        assert(spec_quote_elvish(s) =~= quote_piece(s));
        assert(quote_piece(s) =~= quote_piece(s) + Seq::<char>::empty());
        lemma_shq_eval_quoted(s, Seq::empty());
        assert(s + shq_eval(Seq::<char>::empty()) =~= s);
    }
}

/// Round trip of rendering: an escape-free literal string, parsed and then
/// rendered for a dialect, reads back as exactly that string under the
/// dialect's own quoting rules.  Elvish, which escapes nothing, is covered
/// for literals free of its quote character.
pub proof fn lemma_literal_round_trip(shell: Shells, s: Seq<char>)
    requires
        crate::parser::plain_from(s, 0),
        shell == Shells::Elvish ==> forall|k: int| 0 <= k < s.len() ==> s[k] != '\'',
    ensures
        s.len() == 0 ==> spec_expand_value(shell, s) == Seq::<char>::empty(),
        is_posix_family(shell) ==> shq_eval(spec_expand_value(shell, s)) == s,
        shell == Shells::Elvish ==> shq_eval(spec_expand_value(shell, s)) == s,
        shell == Shells::Xonsh ==> unescape_slashed(spec_expand_value(shell, s)) == s,
        shell == Shells::Fish && s.len() > 0 ==> spec_expand_value(shell, s)[0] == '\''
            && fish_eval_in(spec_expand_value(shell, s).drop_first()) == s,
{
    crate::parser::lemma_parse_plain(s);
    if s.len() == 0 {
        assert(spec_format_segs(shell, Seq::<crate::parser::Seg>::empty())
            == Seq::<char>::empty());
        assert(shq_eval(Seq::<char>::empty()) == Seq::<char>::empty());
    } else {
        let segs = seq![(ValuePartKind::Literal, s)];
        assert(segs.drop_first() =~= Seq::<crate::parser::Seg>::empty());
        assert(spec_format_segs(shell, segs.drop_first()) == Seq::<char>::empty());
        assert(spec_format_segs(shell, segs) == spec_shell_format(shell, ValuePartKind::Literal, s)
            + Seq::<char>::empty());
        assert(spec_expand_value(shell, s) =~= spec_shell_format(
            shell,
            ValuePartKind::Literal,
            s,
        ));
        match shell {
            Shells::Elvish => {
                lemma_quote_elvish_round_trip(s);
            },
            Shells::Fish => {
                lemma_quote_fish_round_trip(s);
            },
            Shells::Xonsh => {
                lemma_esc_slashed_round_trip(s);
            },
            _ => {
                lemma_quote_default_round_trip(s);
            },
        }
    }
}

// ---------------------------------------------------------------------------
// Executable rendering.
// ---------------------------------------------------------------------------
/// Walks to the first single quote at or after `start`.
fn scan_quote(cs: &Vec<char>, start: usize) -> (j: usize)
    requires
        start <= cs@.len(),
    ensures
        j == quote_end(cs@, start as int),
        start <= j <= cs@.len(),
{
    let mut j = start;
    while j < cs.len() && cs[j] != '\''
        invariant
            start <= j <= cs@.len(),
            quote_end(cs@, start as int) == quote_end(cs@, j as int),
        decreases cs@.len() - j,
    {
        j = j + 1;
    }
    j
}

/// POSIX-family quoting of a literal, over characters.
fn quote_default_chars(v: &Vec<char>) -> (r: Vec<char>)
    ensures
        r@ == spec_quote_default(v@),
{
    let n = v.len();
    let mut out: Vec<char> = Vec::new();
    let mut i: usize = 0;
    proof {
        assert(out@ =~= Seq::<char>::empty());
    }
    loop
        invariant
            n == v@.len(),
            i <= n,
            spec_quote_default(v@) == quote_walk(v@, i as int, out@),
        decreases n - i,
    {
        let j = scan_quote(v, i);
        let ghost out0 = out@;
        if j > i {
            out.push('\'');
            let piece = crate::text::copy_range(v, i, j);
            crate::text::append_chars(&mut out, &piece);
            out.push('\'');
            proof {
                assert(out@ =~= out0 + quote_piece(v@.subrange(i as int, j as int)));
            }
        } else {
            proof {
                assert(v@.subrange(i as int, j as int) =~= Seq::<char>::empty());
                assert(out@ =~= out0 + quote_piece(v@.subrange(i as int, j as int)));
            }
        }
        if j < n {
            out.push('"');
            out.push('\'');
            out.push('"');
            proof {
                assert(out@ =~= out0 + quote_piece(v@.subrange(i as int, j as int))
                    + quote_splice());
            }
            i = j + 1;
        } else {
            proof {
                assert(j == n);
                assert(out@ == spec_quote_default(v@));
            }
            return out;
        }
    }
}

/// Backslash escaping of `\` and `'`, over characters.
fn esc_slashed_chars(v: &Vec<char>) -> (r: Vec<char>)
    ensures
        r@ == esc_slashed(v@),
{
    let mut out: Vec<char> = Vec::new();
    let mut i: usize = 0;
    proof {
        assert(v@.take(0) =~= Seq::<char>::empty());
        assert(out@ =~= esc_slashed(v@.take(0)));
    }
    while i < v.len()
        invariant
            i <= v@.len(),
            out@ == esc_slashed(v@.take(i as int)),
        decreases v@.len() - i,
    {
        let c = v[i];
        let ghost pre = v@.take(i as int);
        if c == '\\' {
            out.push('\\');
            out.push('\\');
        } else if c == '\'' {
            out.push('\\');
            out.push('\'');
        } else {
            out.push(c);
        }
        proof {
            lemma_esc_slashed_snoc(pre, c);
            assert(v@.take(i + 1) =~= pre.push(c));
            assert(out@ =~= esc_slashed(pre) + esc_char(c));
        }
        i = i + 1;
    }
    proof {
        assert(v@.take(v@.len() as int) =~= v@);
    }
    out
}

/// The quoted form of a literal in the given dialect, over characters.
fn single_quote_chars(shell: &Shells, v: &Vec<char>) -> (r: Vec<char>)
    ensures
        r@ == spec_single_quote(*shell, v@),
{
    match shell {
        Shells::Elvish => {
            let mut out: Vec<char> = Vec::new();
            out.push('\'');
            crate::text::append_chars(&mut out, v);
            out.push('\'');
            proof {
                assert(out@ =~= spec_quote_elvish(v@));
            }
            out
        },
        Shells::Fish => {
            let mut out: Vec<char> = Vec::new();
            out.push('\'');
            let body = esc_slashed_chars(v);
            crate::text::append_chars(&mut out, &body);
            out.push('\'');
            proof {
                assert(out@ =~= spec_quote_fish(v@));
            }
            out
        },
        Shells::Xonsh => esc_slashed_chars(v),
        _ => quote_default_chars(v),
    }
}

/// The surface form of one segment in the given dialect, over characters.
fn shell_format_chars(shell: &Shells, kind: &ValuePartKind, text: &Vec<char>) -> (r: Vec<char>)
    ensures
        r@ == spec_shell_format(*shell, *kind, text@),
{
    let mut out: Vec<char> = Vec::new();
    match shell {
        Shells::Elvish => {
            match kind {
                ValuePartKind::Literal => {
                    let q = single_quote_chars(shell, text);
                    crate::text::append_chars(&mut out, &q);
                },
                ValuePartKind::ShellVariable => {
                    out.push('$');
                    crate::text::append_chars(&mut out, text);
                    proof {
                        assert(out@ =~= seq!['$'] + text@);
                    }
                },
                ValuePartKind::ShellCommand => {
                    crate::text::append_str(&mut out, "(eval ");
                    let q = single_quote_chars(shell, text);
                    crate::text::append_chars(&mut out, &q);
                    crate::text::append_str(&mut out, ")");
                    proof {
                        assert(out@ =~= "(eval "@ + spec_quote_elvish(text@) + ")"@);
                    }
                },
                ValuePartKind::Home => {
                    crate::text::append_str(&mut out, "$home");
                },
            }
        },
        Shells::Fish => {
            match kind {
                ValuePartKind::Literal => {
                    let q = single_quote_chars(shell, text);
                    crate::text::append_chars(&mut out, &q);
                },
                ValuePartKind::ShellVariable => {
                    out.push('"');
                    out.push('$');
                    crate::text::append_chars(&mut out, text);
                    out.push('"');
                    proof {
                        assert(out@ =~= seq!['"', '$'] + text@ + seq!['"']);
                    }
                },
                ValuePartKind::ShellCommand => {
                    crate::text::append_str(&mut out, "(eval ");
                    let q = single_quote_chars(shell, text);
                    crate::text::append_chars(&mut out, &q);
                    crate::text::append_str(&mut out, ")");
                    proof {
                        assert(out@ =~= "(eval "@ + spec_quote_fish(text@) + ")"@);
                    }
                },
                ValuePartKind::Home => {
                    crate::text::append_str(&mut out, "(eval echo \"~");
                    crate::text::append_chars(&mut out, text);
                    crate::text::append_str(&mut out, "\")");
                    proof {
                        assert(out@ =~= "(eval echo \"~"@ + text@ + "\")"@);
                    }
                },
            }
        },
        Shells::Xonsh => {
            match kind {
                ValuePartKind::Literal => {
                    let q = esc_slashed_chars(text);
                    crate::text::append_chars(&mut out, &q);
                },
                ValuePartKind::ShellVariable => {
                    out.push('$');
                    crate::text::append_chars(&mut out, text);
                    proof {
                        assert(out@ =~= seq!['$'] + text@);
                    }
                },
                ValuePartKind::ShellCommand => {
                    crate::text::append_str(&mut out, "$(");
                    crate::text::append_chars(&mut out, text);
                    crate::text::append_str(&mut out, ")");
                    proof {
                        assert(out@ =~= "$("@ + text@ + ")"@);
                    }
                },
                ValuePartKind::Home => {
                    crate::text::append_str(&mut out, "$(~");
                    crate::text::append_chars(&mut out, text);
                    crate::text::append_str(&mut out, ")");
                    proof {
                        assert(out@ =~= "$(~"@ + text@ + ")"@);
                    }
                },
            }
        },
        _ => {
            match kind {
                ValuePartKind::Literal => {
                    let q = quote_default_chars(text);
                    crate::text::append_chars(&mut out, &q);
                },
                ValuePartKind::ShellVariable => {
                    out.push('"');
                    out.push('$');
                    crate::text::append_chars(&mut out, text);
                    out.push('"');
                    proof {
                        assert(out@ =~= seq!['"', '$'] + text@ + seq!['"']);
                    }
                },
                ValuePartKind::ShellCommand => {
                    crate::text::append_str(&mut out, "$(eval ");
                    let q = quote_default_chars(text);
                    crate::text::append_chars(&mut out, &q);
                    crate::text::append_str(&mut out, ")");
                    proof {
                        assert(out@ =~= "$(eval "@ + spec_quote_default(text@) + ")"@);
                    }
                },
                ValuePartKind::Home => {
                    crate::text::append_str(&mut out, "$(eval echo \"~");
                    crate::text::append_chars(&mut out, text);
                    crate::text::append_str(&mut out, "\")");
                    proof {
                        assert(out@ =~= "$(eval echo \"~"@ + text@ + "\")"@);
                    }
                },
            }
        },
    }
    out
}

/// Compares a character vector with a string.
fn chars_eq_str(v: &Vec<char>, s: &str) -> (r: bool)
    ensures
        r == (v@ == s@),
{
    let cs = crate::text::chars_of(s);
    if v.len() != cs.len() {
        return false;
    }
    let mut i: usize = 0;
    while i < v.len()
        invariant
            i <= v@.len(),
            v@.len() == cs@.len(),
            cs@ == s@,
            forall|k: int| 0 <= k < i ==> v@[k] == cs@[k],
        decreases v@.len() - i,
    {
        if v[i] != cs[i] {
            return false;
        }
        i = i + 1;
    }
    proof {
        assert(v@ =~= cs@);
    }
    true
}

/// The dialect's assignment statement, over characters.
fn set_variable_chars(shell: &Shells, name: &Vec<char>, value: &Vec<char>, is_path: bool) -> (r:
    Vec<char>)
    ensures
        r@ == spec_set_variable(*shell, name@, value@, is_path),
{
    let mut out: Vec<char> = Vec::new();
    match shell {
        Shells::Elvish => {
            crate::text::append_str(&mut out, "set-env ");
            crate::text::append_chars(&mut out, name);
            crate::text::append_str(&mut out, " ");
            let q = single_quote_chars(shell, value);
            crate::text::append_chars(&mut out, &q);
            proof {
                assert(out@ =~= "set-env "@ + name@ + " "@ + spec_quote_elvish(value@));
            }
        },
        Shells::Fish => {
            if is_path {
                crate::text::append_str(&mut out, "set -gx --path ");
            } else {
                crate::text::append_str(&mut out, "set -gx ");
            }
            crate::text::append_chars(&mut out, name);
            crate::text::append_str(&mut out, " ");
            crate::text::append_chars(&mut out, value);
            proof {
                if is_path {
                    assert(out@ =~= "set -gx --path "@ + name@ + " "@ + value@);
                } else {
                    assert(out@ =~= "set -gx "@ + name@ + " "@ + value@);
                }
            }
        },
        Shells::Xonsh => {
            out.push('$');
            crate::text::append_chars(&mut out, name);
            if chars_eq_str(value, "1") {
                crate::text::append_str(&mut out, " = True");
                proof {
                    assert(out@ =~= seq!['$'] + name@ + " = True"@);
                }
            } else {
                crate::text::append_str(&mut out, " = f\"");
                crate::text::append_chars(&mut out, value);
                out.push('"');
                proof {
                    assert(out@ =~= seq!['$'] + name@ + " = f\""@ + value@ + seq!['"']);
                }
            }
        },
        _ => {
            crate::text::append_str(&mut out, "export ");
            crate::text::append_chars(&mut out, name);
            out.push('=');
            crate::text::append_chars(&mut out, value);
            proof {
                assert(out@ =~= "export "@ + name@ + seq!['='] + value@);
            }
        },
    }
    out
}

/// The dialect's removal statement, over characters.
fn unset_variable_chars(shell: &Shells, name: &Vec<char>) -> (r: Vec<char>)
    ensures
        r@ == spec_unset_variable(*shell, name@),
{
    let mut out: Vec<char> = Vec::new();
    match shell {
        Shells::Elvish => {
            crate::text::append_str(&mut out, "del-env ");
        },
        Shells::Fish => {
            crate::text::append_str(&mut out, "set -ge ");
        },
        Shells::Xonsh => {
            crate::text::append_str(&mut out, "del $");
        },
        _ => {
            crate::text::append_str(&mut out, "unset ");
        },
    }
    crate::text::append_chars(&mut out, name);
    out
}

/// Renders one parsed segment in the given dialect.
pub fn shell_format(shell: &Shells, kind: &ValuePartKind, value: &str) -> (r: String)
    ensures
        r@ == spec_shell_format(*shell, *kind, value@),
{
    let cs = crate::text::chars_of(value);
    let out = shell_format_chars(shell, kind, &cs);
    crate::text::string_of(&out)
}

/// Quotes one literal in the given dialect.
pub fn single_quote(shell: &Shells, string: &str) -> (r: String)
    ensures
        r@ == spec_single_quote(*shell, string@),
{
    let cs = crate::text::chars_of(string);
    let out = single_quote_chars(shell, &cs);
    crate::text::string_of(&out)
}

/// The dialect's assignment statement for an already-rendered value.  The
/// `is_path` mark may add a dialect-specific annotation but never changes the
/// value text itself.
pub fn set_variable(shell: &Shells, name: &str, value: &str, is_path: bool) -> (r: String)
    ensures
        r@ == spec_set_variable(*shell, name@, value@, is_path),
{
    let namev = crate::text::chars_of(name);
    let valuev = crate::text::chars_of(value);
    let out = set_variable_chars(shell, &namev, &valuev, is_path);
    crate::text::string_of(&out)
}

/// The dialect's removal statement.
pub fn unset_variable(shell: &Shells, name: &str) -> (r: String)
    ensures
        r@ == spec_unset_variable(*shell, name@),
{
    let namev = crate::text::chars_of(name);
    let out = unset_variable_chars(shell, &namev);
    crate::text::string_of(&out)
}

/// Parses a raw value and renders every segment in order, with no inserted
/// separators: the dialect-native right-hand side of an assignment.
pub fn expand_value(shell: &Shells, value: &str) -> (r: String)
    ensures
        r@ == spec_expand_value(*shell, value@),
{
    let parts = crate::parser::parse_value(value);
    let ghost segs = crate::parser::seg_views(parts@);
    let mut out: Vec<char> = Vec::new();
    let mut k: usize = 0;
    proof {
        assert(segs.take(0) =~= Seq::<crate::parser::Seg>::empty());
        assert(out@ =~= spec_format_segs(*shell, segs.take(0)));
    }
    while k < parts.len()
        invariant
            k <= parts@.len(),
            segs == crate::parser::seg_views(parts@),
            segs == crate::parser::spec_parse(value@),
            segs.len() == parts@.len(),
            out@ == spec_format_segs(*shell, segs.take(k as int)),
        decreases parts@.len() - k,
    {
        let part = &parts[k];
        let cs = crate::text::chars_of(part.value.as_str());
        let piece = shell_format_chars(shell, &part.kind, &cs);
        crate::text::append_chars(&mut out, &piece);
        proof {
            assert(segs[k as int] == (parts@[k as int].kind, parts@[k as int].value@));
            lemma_format_segs_snoc(*shell, segs.take(k as int), segs[k as int]);
            assert(segs.take(k + 1) =~= segs.take(k as int).push(segs[k as int]));
        }
        k = k + 1;
    }
    proof {
        assert(segs.take(segs.len() as int) =~= segs);
    }
    crate::text::string_of(&out)
}

impl Shells {
    /// The behavior of a dialect is the dialect identifier itself: every
    /// rendering concern dispatches on it by exhaustive match.
    pub fn create_behavior(&self) -> (r: Shells)
        ensures
            r == *self,
    {
        *self
    }

    /// The configuration-file name of the dialect.
    pub fn name(&self) -> (r: String)
        ensures
            r@ == spec_name(*self),
    {
        match self {
            Shells::Bash => String::from_str("bash"),
            Shells::Dash => String::from_str("dash"),
            Shells::Elvish => String::from_str("elvish"),
            Shells::Fish => String::from_str("fish"),
            Shells::Nu => String::from_str("nu"),
            Shells::Xonsh => String::from_str("xonsh"),
            Shells::Zsh => String::from_str("zsh"),
        }
    }
}

/// A typed handle on one shell, marked by the dialect's marker trait.
pub struct Shell<T> {
    marker: core::marker::PhantomData<T>,
}

impl<T> Shell<T> {
    pub fn new() -> Self {
        Shell { marker: core::marker::PhantomData }
    }
}

impl<T> Default for Shell<T> {
    fn default() -> Self {
        Self::new()
    }
}

pub trait Bash {

}

pub trait Dash {

}

pub trait Elvish {

}

pub trait Fish {

}

pub trait Nu {

}

pub trait Xonsh {

}

pub trait Zsh {

}

pub struct BashShell;

pub struct DashShell;

pub struct ElvishShell;

pub struct FishShell;

pub struct NuShell;

pub struct XonshShell;

pub struct ZshShell;

/// One dialect's rendering surface: quoting, segment rendering, and whole
/// set/unset statements.  Every method renders exactly as the pure functions
/// of the implementor's dialect do.
pub trait Behavior {
    /// The dialect the implementor renders for.
    spec fn dialect(&self) -> Shells;

    fn shell_format(&self, kind: &ValuePartKind, value: &str) -> (r: String)
        ensures
            r@ == spec_shell_format(self.dialect(), *kind, value@),
    ;

    fn single_quote(&self, string: &str) -> (r: String)
        ensures
            r@ == spec_single_quote(self.dialect(), string@),
    ;

    fn set_variable(&self, name: &str, value: &str, is_path: bool) -> (r: String)
        ensures
            r@ == spec_set_variable(self.dialect(), name@, value@, is_path),
    ;

    fn unset_variable(&self, name: &str) -> (r: String)
        ensures
            r@ == spec_unset_variable(self.dialect(), name@),
    ;

    fn expand_value(&self, value: &str) -> (r: String)
        ensures
            r@ == spec_expand_value(self.dialect(), value@),
    ;
}

impl Behavior for Shells {
    open spec fn dialect(&self) -> Shells {
        *self
    }

    fn shell_format(&self, kind: &ValuePartKind, value: &str) -> (r: String) {
        shell_format(self, kind, value)
    }

    fn single_quote(&self, string: &str) -> (r: String) {
        single_quote(self, string)
    }

    fn set_variable(&self, name: &str, value: &str, is_path: bool) -> (r: String) {
        set_variable(self, name, value, is_path)
    }

    fn unset_variable(&self, name: &str) -> (r: String) {
        unset_variable(self, name)
    }

    fn expand_value(&self, value: &str) -> (r: String) {
        expand_value(self, value)
    }
}

impl Behavior for BashShell {
    open spec fn dialect(&self) -> Shells {
        Shells::Bash
    }

    fn shell_format(&self, kind: &ValuePartKind, value: &str) -> (r: String) {
        shell_format(&Shells::Bash, kind, value)
    }

    fn single_quote(&self, string: &str) -> (r: String) {
        single_quote(&Shells::Bash, string)
    }

    fn set_variable(&self, name: &str, value: &str, is_path: bool) -> (r: String) {
        set_variable(&Shells::Bash, name, value, is_path)
    }

    fn unset_variable(&self, name: &str) -> (r: String) {
        unset_variable(&Shells::Bash, name)
    }

    fn expand_value(&self, value: &str) -> (r: String) {
        expand_value(&Shells::Bash, value)
    }
}

impl Behavior for DashShell {
    open spec fn dialect(&self) -> Shells {
        Shells::Dash
    }

    fn shell_format(&self, kind: &ValuePartKind, value: &str) -> (r: String) {
        shell_format(&Shells::Dash, kind, value)
    }

    fn single_quote(&self, string: &str) -> (r: String) {
        single_quote(&Shells::Dash, string)
    }

    fn set_variable(&self, name: &str, value: &str, is_path: bool) -> (r: String) {
        set_variable(&Shells::Dash, name, value, is_path)
    }

    fn unset_variable(&self, name: &str) -> (r: String) {
        unset_variable(&Shells::Dash, name)
    }

    fn expand_value(&self, value: &str) -> (r: String) {
        expand_value(&Shells::Dash, value)
    }
}

impl Behavior for ElvishShell {
    open spec fn dialect(&self) -> Shells {
        Shells::Elvish
    }

    fn shell_format(&self, kind: &ValuePartKind, value: &str) -> (r: String) {
        shell_format(&Shells::Elvish, kind, value)
    }

    fn single_quote(&self, string: &str) -> (r: String) {
        single_quote(&Shells::Elvish, string)
    }

    fn set_variable(&self, name: &str, value: &str, is_path: bool) -> (r: String) {
        set_variable(&Shells::Elvish, name, value, is_path)
    }

    fn unset_variable(&self, name: &str) -> (r: String) {
        unset_variable(&Shells::Elvish, name)
    }

    fn expand_value(&self, value: &str) -> (r: String) {
        expand_value(&Shells::Elvish, value)
    }
}

impl Behavior for FishShell {
    open spec fn dialect(&self) -> Shells {
        Shells::Fish
    }

    fn shell_format(&self, kind: &ValuePartKind, value: &str) -> (r: String) {
        shell_format(&Shells::Fish, kind, value)
    }

    fn single_quote(&self, string: &str) -> (r: String) {
        single_quote(&Shells::Fish, string)
    }

    fn set_variable(&self, name: &str, value: &str, is_path: bool) -> (r: String) {
        set_variable(&Shells::Fish, name, value, is_path)
    }

    fn unset_variable(&self, name: &str) -> (r: String) {
        unset_variable(&Shells::Fish, name)
    }

    fn expand_value(&self, value: &str) -> (r: String) {
        expand_value(&Shells::Fish, value)
    }
}

impl Behavior for NuShell {
    open spec fn dialect(&self) -> Shells {
        Shells::Nu
    }

    fn shell_format(&self, kind: &ValuePartKind, value: &str) -> (r: String) {
        shell_format(&Shells::Nu, kind, value)
    }

    fn single_quote(&self, string: &str) -> (r: String) {
        single_quote(&Shells::Nu, string)
    }

    fn set_variable(&self, name: &str, value: &str, is_path: bool) -> (r: String) {
        set_variable(&Shells::Nu, name, value, is_path)
    }

    fn unset_variable(&self, name: &str) -> (r: String) {
        unset_variable(&Shells::Nu, name)
    }

    fn expand_value(&self, value: &str) -> (r: String) {
        expand_value(&Shells::Nu, value)
    }
}

impl Behavior for XonshShell {
    open spec fn dialect(&self) -> Shells {
        Shells::Xonsh
    }

    fn shell_format(&self, kind: &ValuePartKind, value: &str) -> (r: String) {
        shell_format(&Shells::Xonsh, kind, value)
    }

    fn single_quote(&self, string: &str) -> (r: String) {
        single_quote(&Shells::Xonsh, string)
    }

    fn set_variable(&self, name: &str, value: &str, is_path: bool) -> (r: String) {
        set_variable(&Shells::Xonsh, name, value, is_path)
    }

    fn unset_variable(&self, name: &str) -> (r: String) {
        unset_variable(&Shells::Xonsh, name)
    }

    fn expand_value(&self, value: &str) -> (r: String) {
        expand_value(&Shells::Xonsh, value)
    }
}

impl Behavior for ZshShell {
    open spec fn dialect(&self) -> Shells {
        Shells::Zsh
    }

    fn shell_format(&self, kind: &ValuePartKind, value: &str) -> (r: String) {
        shell_format(&Shells::Zsh, kind, value)
    }

    fn single_quote(&self, string: &str) -> (r: String) {
        single_quote(&Shells::Zsh, string)
    }

    fn set_variable(&self, name: &str, value: &str, is_path: bool) -> (r: String) {
        set_variable(&Shells::Zsh, name, value, is_path)
    }

    fn unset_variable(&self, name: &str) -> (r: String) {
        unset_variable(&Shells::Zsh, name)
    }

    fn expand_value(&self, value: &str) -> (r: String) {
        expand_value(&Shells::Zsh, value)
    }
}

} // verus!
