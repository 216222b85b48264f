//! The conversion driver: walks the ordered variable definitions, resolves
//! per-shell overrides, and renders one statement per variable, in insertion
//! order, into the final script text.

pub mod tests;

use crate::ordered::{env_entries, env_entry_at, env_len, lookup, value_entries, value_get};
use crate::shells::{
    spec_expand_value, spec_name, spec_set_variable, spec_unset_variable, Shells,
};
use crate::structure::{EnvVariableOption, EnvVariableValue, EnvironmentVariables};
use indexmap::IndexMap;
use vstd::prelude::*;

verus! {

/// The characters of each string in a sequence.
pub open spec fn str_views(v: Seq<String>) -> Seq<Seq<char>> {
    v.map_values(|s: String| s@)
}

/// The characters of each string in a nested sequence.
pub open spec fn vec2_views(v: Seq<Vec<String>>) -> Seq<Seq<Seq<char>>> {
    v.map_values(|x: Vec<String>| str_views(x@))
}

/// One level of nesting flattened away: the inner sequences, concatenated in
/// order.
pub open spec fn flatten_once(v: Seq<Seq<Seq<char>>>) -> Seq<Seq<char>>
    decreases v.len(),
{
    if v.len() == 0 {
        Seq::empty()
    } else {
        v[0] + flatten_once(v.drop_first())
    }
}

pub proof fn lemma_flatten_once_snoc(v: Seq<Seq<Seq<char>>>, x: Seq<Seq<char>>)
    ensures
        flatten_once(v.push(x)) == flatten_once(v) + x,
    decreases v.len(),
{
    reveal_with_fuel(flatten_once, 3);
    if v.len() == 0 {
        assert(v.push(x).drop_first() =~= Seq::<Seq<Seq<char>>>::empty());
        assert(flatten_once(v.push(x)) =~= flatten_once(v) + x);
    } else {
        let t = v.push(x);
        assert(t.drop_first() =~= v.drop_first().push(x));
        assert(t[0] == v[0]);
        lemma_flatten_once_snoc(v.drop_first(), x);
        assert(flatten_once(t) =~= flatten_once(v) + x);
    }
}

/// Each raw item expanded for the dialect.
pub open spec fn expanded_items(shell: Shells, items: Seq<Seq<char>>) -> Seq<Seq<char>> {
    items.map_values(|s: Seq<char>| spec_expand_value(shell, s))
}

/// The pieces joined with `:`.
pub open spec fn join_colon(items: Seq<Seq<char>>) -> Seq<char>
    decreases items.len(),
{
    if items.len() == 0 {
        Seq::empty()
    } else if items.len() == 1 {
        items[0]
    } else {
        items[0] + seq![':'] + join_colon(items.drop_first())
    }
}

pub proof fn lemma_join_colon_snoc(items: Seq<Seq<char>>, x: Seq<char>)
    ensures
        join_colon(items.push(x)) == if items.len() == 0 {
            x
        } else {
            join_colon(items) + seq![':'] + x
        },
    decreases items.len(),
{
    reveal_with_fuel(join_colon, 3);
    let t = items.push(x);
    if items.len() == 0 {
        assert(t.len() == 1);
        assert(join_colon(t) == t[0]);
        assert(t[0] == x);
    } else if items.len() == 1 {
        assert(t.drop_first() =~= items.drop_first().push(x));
        assert(join_colon(t) =~= join_colon(items) + seq![':'] + x);
    } else {
        assert(t.drop_first() =~= items.drop_first().push(x));
        lemma_join_colon_snoc(items.drop_first(), x);
        assert(join_colon(t) =~= join_colon(items) + seq![':'] + x);
    }
}

/// The rendered value of a list: every item expanded, the results joined
/// with `:`.
pub open spec fn spec_joined_value(shell: Shells, items: Seq<Seq<char>>) -> Seq<char> {
    join_colon(expanded_items(shell, items))
}

/// The statement emitted for one resolved variable.
pub open spec fn spec_process_variable(
    shell: Shells,
    name: Seq<char>,
    value: EnvVariableValue,
) -> Seq<char> {
    match value {
        EnvVariableValue::Flag(b) => if b {
            spec_set_variable(shell, name, "1"@, false)
        } else {
            spec_unset_variable(shell, name)
        },
        EnvVariableValue::Text(s) => spec_set_variable(
            shell,
            name,
            spec_expand_value(shell, s@),
            false,
        ),
        EnvVariableValue::List(a) => spec_set_variable(
            shell,
            name,
            spec_joined_value(shell, flatten_once(vec2_views(a@))),
            false,
        ),
        EnvVariableValue::Path(p) => spec_set_variable(
            shell,
            name,
            spec_joined_value(shell, str_views(p@)),
            true,
        ),
    }
}

/// The value a per-dialect override map gives the dialect: its own entry if
/// present, else the `_` fallback, else nothing.
pub open spec fn spec_resolve_specific(
    shell: Shells,
    entries: Seq<(Seq<char>, EnvVariableValue)>,
) -> Option<EnvVariableValue> {
    match lookup(entries, spec_name(shell)) {
        Some(v) => Some(v),
        None => lookup(entries, "_"@),
    }
}

/// The value one configuration entry resolves to for the dialect, if any.
pub open spec fn spec_resolve(shell: Shells, option: EnvVariableOption) -> Option<
    EnvVariableValue,
> {
    match option {
        EnvVariableOption::General(v) => Some(v),
        EnvVariableOption::Specific(m) => spec_resolve_specific(shell, value_entries(m)),
    }
}

/// The statements emitted for the entries, in order; entries that resolve to
/// nothing are skipped.
pub open spec fn spec_lines(
    shell: Shells,
    entries: Seq<(Seq<char>, EnvVariableOption)>,
) -> Seq<Seq<char>>
    decreases entries.len(),
{
    if entries.len() == 0 {
        Seq::empty()
    } else {
        (match spec_resolve(shell, entries[0].1) {
            Some(v) => seq![spec_process_variable(shell, entries[0].0, v)],
            None => Seq::empty(),
        }) + spec_lines(shell, entries.drop_first())
    }
}

pub proof fn lemma_spec_lines_snoc(
    shell: Shells,
    entries: Seq<(Seq<char>, EnvVariableOption)>,
    e: (Seq<char>, EnvVariableOption),
)
    ensures
        spec_lines(shell, entries.push(e)) == spec_lines(shell, entries) + (
        match spec_resolve(shell, e.1) {
            Some(v) => seq![spec_process_variable(shell, e.0, v)],
            None => Seq::<Seq<char>>::empty(),
        }),
    decreases entries.len(),
{
    reveal_with_fuel(spec_lines, 3);
    let tail = (match spec_resolve(shell, e.1) {
        Some(v) => seq![spec_process_variable(shell, e.0, v)],
        None => Seq::<Seq<char>>::empty(),
    });
    let t = entries.push(e);
    if entries.len() == 0 {
        assert(t.drop_first() =~= Seq::<(Seq<char>, EnvVariableOption)>::empty());
        assert(spec_lines(shell, t) =~= spec_lines(shell, entries) + tail);
    } else {
        assert(t.drop_first() =~= entries.drop_first().push(e));
        assert(t[0] == entries[0]);
        lemma_spec_lines_snoc(shell, entries.drop_first(), e);
        assert(spec_lines(shell, t) =~= spec_lines(shell, entries) + tail);
    }
}

/// The lines joined with newlines.
pub open spec fn join_newlines(lines: Seq<Seq<char>>) -> Seq<char>
    decreases lines.len(),
{
    if lines.len() == 0 {
        Seq::empty()
    } else if lines.len() == 1 {
        lines[0]
    } else {
        lines[0] + seq!['\n'] + join_newlines(lines.drop_first())
    }
}

pub proof fn lemma_join_newlines_snoc(lines: Seq<Seq<char>>, x: Seq<char>)
    ensures
        join_newlines(lines.push(x)) == if lines.len() == 0 {
            x
        } else {
            join_newlines(lines) + seq!['\n'] + x
        },
    decreases lines.len(),
{
    reveal_with_fuel(join_newlines, 3);
    let t = lines.push(x);
    if lines.len() == 0 {
        assert(t.len() == 1);
        assert(join_newlines(t) == t[0]);
        assert(t[0] == x);
    } else if lines.len() == 1 {
        assert(t.drop_first() =~= lines.drop_first().push(x));
        assert(join_newlines(t) =~= join_newlines(lines) + seq!['\n'] + x);
    } else {
        assert(t.drop_first() =~= lines.drop_first().push(x));
        lemma_join_newlines_snoc(lines.drop_first(), x);
        assert(join_newlines(t) =~= join_newlines(lines) + seq!['\n'] + x);
    }
}

/// The whole script for the entries: the emitted statements in insertion
/// order, one per line, newline-terminated.
pub open spec fn spec_to_shell_source(
    entries: Seq<(Seq<char>, EnvVariableOption)>,
    shell: Shells,
) -> Seq<char> {
    join_newlines(spec_lines(shell, entries)) + seq!['\n']
}

/// No dialect is named `_`, so the fallback key can never shadow a dialect's
/// own entry.
pub proof fn lemma_no_dialect_named_fallback(shell: Shells)
    ensures
        spec_name(shell) != "_"@,
{
    reveal_strlit("_");
    assert("_"@.len() == 1);
    match shell {
        Shells::Bash => {
            reveal_strlit("bash");
            assert("bash"@.len() == 4);
        },
        Shells::Dash => {
            reveal_strlit("dash");
            assert("dash"@.len() == 4);
        },
        Shells::Elvish => {
            reveal_strlit("elvish");
            assert("elvish"@.len() == 6);
        },
        Shells::Fish => {
            reveal_strlit("fish");
            assert("fish"@.len() == 4);
        },
        Shells::Nu => {
            reveal_strlit("nu");
            assert("nu"@.len() == 2);
        },
        Shells::Xonsh => {
            reveal_strlit("xonsh");
            assert("xonsh"@.len() == 5);
        },
        Shells::Zsh => {
            reveal_strlit("zsh");
            assert("zsh"@.len() == 3);
        },
    }
}

/// Fallback resolution: a per-dialect override map whose entries all carry
/// the catch-all key `_` resolves, for every dialect, to its first entry;
/// and whenever the map holds an entry under the dialect's own name, that
/// entry wins over the fallback.
pub proof fn lemma_fallback_resolution(shell: Shells, entries: Seq<(Seq<char>, EnvVariableValue)>)
    ensures
        entries.len() > 0 && (forall|i: int| 0 <= i < entries.len() ==> entries[i].0 == "_"@)
            ==> spec_resolve_specific(shell, entries) == Some(entries[0].1),
        lookup(entries, spec_name(shell)) is Some ==> spec_resolve_specific(shell, entries)
            == lookup(entries, spec_name(shell)),
{
    lemma_no_dialect_named_fallback(shell);
    if entries.len() > 0 && (forall|i: int| 0 <= i < entries.len() ==> entries[i].0 == "_"@) {
        crate::ordered::lemma_lookup_absent(entries, spec_name(shell));
        assert(entries[0].0 == "_"@);
    }
}

/// Boolean short-circuit: a false flag yields exactly the dialect's one
/// unset statement, whatever else the configuration held for the variable;
/// a true flag yields a set statement whose value text is the literal `1`.
pub proof fn lemma_flag_short_circuit(shell: Shells, name: Seq<char>)
    ensures
        spec_process_variable(shell, name, EnvVariableValue::Flag(false)) == spec_unset_variable(
            shell,
            name,
        ),
        spec_process_variable(shell, name, EnvVariableValue::Flag(true)) == spec_set_variable(
            shell,
            name,
            "1"@,
            false,
        ),
{
}

/// List/Path flattening: a two-level list flattens to one level before
/// joining, so a list and a path with the same flattened contents render the
/// same joined value text and differ only in the path mark handed to the
/// set statement.
pub proof fn lemma_list_path_flattening(
    shell: Shells,
    name: Seq<char>,
    a: Vec<Vec<String>>,
    p: Vec<String>,
)
    requires
        flatten_once(vec2_views(a@)) == str_views(p@),
    ensures
        spec_process_variable(shell, name, EnvVariableValue::List(a)) == spec_set_variable(
            shell,
            name,
            spec_joined_value(shell, str_views(p@)),
            false,
        ),
        spec_process_variable(shell, name, EnvVariableValue::Path(p)) == spec_set_variable(
            shell,
            name,
            spec_joined_value(shell, str_views(p@)),
            true,
        ),
{
}

/// The number of entries that resolve to a value for the dialect.
pub open spec fn count_resolved(
    shell: Shells,
    entries: Seq<(Seq<char>, EnvVariableOption)>,
) -> nat
    decreases entries.len(),
{
    if entries.len() == 0 {
        0
    } else {
        (if spec_resolve(shell, entries[0].1) is Some {
            1nat
        } else {
            0nat
        }) + count_resolved(shell, entries.drop_first())
    }
}

/// Line count: the script holds exactly one line per entry that resolved to
/// a value; skipped entries leave no trace.
pub proof fn lemma_line_count(shell: Shells, entries: Seq<(Seq<char>, EnvVariableOption)>)
    ensures
        spec_lines(shell, entries).len() == count_resolved(shell, entries),
    decreases entries.len(),
{
    if entries.len() > 0 {
        lemma_line_count(shell, entries.drop_first());
    }
}

/// Order preservation: when no entry is skipped, the script holds exactly
/// one line per entry, and the line at each position renders that position's
/// entry.
pub proof fn lemma_order_preservation(
    shell: Shells,
    entries: Seq<(Seq<char>, EnvVariableOption)>,
)
    requires
        forall|i: int| 0 <= i < entries.len() ==> spec_resolve(shell, #[trigger] entries[i].1)
            is Some,
    ensures
        spec_lines(shell, entries).len() == entries.len(),
        forall|i: int| 0 <= i < entries.len() ==> spec_lines(shell, entries)[i]
            == spec_process_variable(
            shell,
            entries[i].0,
            spec_resolve(shell, #[trigger] entries[i].1)->Some_0,
        ),
    decreases entries.len(),
{
    if entries.len() > 0 {
        let rest = entries.drop_first();
        assert(forall|i: int| 0 <= i < rest.len() ==> rest[i] == entries[i + 1]);
        lemma_order_preservation(shell, rest);
        let head_line = spec_process_variable(
            shell,
            entries[0].0,
            spec_resolve(shell, entries[0].1)->Some_0,
        );
        assert(spec_lines(shell, entries) =~= seq![head_line] + spec_lines(shell, rest));
        assert forall|i: int| 0 <= i < entries.len() implies spec_lines(shell, entries)[i]
            == spec_process_variable(
            shell,
            entries[i].0,
            spec_resolve(shell, #[trigger] entries[i].1)->Some_0,
        ) by {
            if i > 0 {
                assert(spec_lines(shell, entries)[i] == spec_lines(shell, rest)[i - 1]);
                assert(rest[i - 1] == entries[i]);
            }
        }
    }
}

/// Flattens one level of list nesting.
fn flatten_level(aa: &Vec<Vec<String>>) -> (r: Vec<String>)
    ensures
        str_views(r@) == flatten_once(vec2_views(aa@)),
{
    let mut r: Vec<String> = Vec::new();
    let mut i: usize = 0;
    proof {
        assert(vec2_views(aa@).take(0) =~= Seq::<Seq<Seq<char>>>::empty());
        assert(str_views(r@) =~= flatten_once(vec2_views(aa@).take(0)));
    }
    while i < aa.len()
        invariant
            i <= aa@.len(),
            str_views(r@) == flatten_once(vec2_views(aa@).take(i as int)),
        decreases aa@.len() - i,
    {
        let inner = &aa[i];
        let mut j: usize = 0;
        while j < inner.len()
            invariant
                i < aa@.len(),
                j <= inner@.len(),
                inner == &aa@[i as int],
                str_views(r@) == flatten_once(vec2_views(aa@).take(i as int)) + str_views(
                    inner@.take(j as int),
                ),
            decreases inner@.len() - j,
        {
            let ghost r0 = r@;
            r.push(inner[j].clone());
            proof {
                assert(str_views(r@) =~= str_views(r0).push(inner@[j as int]@));
                assert(str_views(inner@.take(j + 1)) =~= str_views(inner@.take(j as int)).push(
                    inner@[j as int]@,
                ));
            }
            j = j + 1;
        }
        proof {
            assert(str_views(inner@.take(inner@.len() as int)) =~= str_views(inner@));
            lemma_flatten_once_snoc(vec2_views(aa@).take(i as int), str_views(inner@));
            assert(vec2_views(aa@).take(i + 1) =~= vec2_views(aa@).take(i as int).push(
                str_views(inner@),
            ));
        }
        i = i + 1;
    }
    proof {
        assert(vec2_views(aa@).take(aa@.len() as int) =~= vec2_views(aa@));
    }
    r
}

/// Expands each item for the dialect and joins the results with `:`.
fn expand_join(shell: &Shells, items: &Vec<String>) -> (r: Vec<char>)
    ensures
        r@ == spec_joined_value(*shell, str_views(items@)),
{
    let mut out: Vec<char> = Vec::new();
    let mut i: usize = 0;
    proof {
        assert(expanded_items(*shell, str_views(items@)).take(0) =~= Seq::<Seq<char>>::empty());
        assert(out@ =~= join_colon(expanded_items(*shell, str_views(items@)).take(0)));
    }
    while i < items.len()
        invariant
            i <= items@.len(),
            out@ == join_colon(expanded_items(*shell, str_views(items@)).take(i as int)),
        decreases items@.len() - i,
    {
        let ghost exp = expanded_items(*shell, str_views(items@));
        if i > 0 {
            out.push(':');
        }
        let piece = crate::shells::expand_value(shell, items[i].as_str());
        crate::text::append_str(&mut out, piece.as_str());
        proof {
            assert(exp[i as int] == spec_expand_value(*shell, items@[i as int]@));
            lemma_join_colon_snoc(exp.take(i as int), exp[i as int]);
            assert(exp.take(i + 1) =~= exp.take(i as int).push(exp[i as int]));
            if i > 0 {
                assert(out@ =~= join_colon(exp.take(i as int)) + seq![':'] + exp[i as int]);
            } else {
                assert(out@ =~= exp[i as int]);
            }
        }
        i = i + 1;
    }
    proof {
        let exp = expanded_items(*shell, str_views(items@));
        assert(exp.take(exp.len() as int) =~= exp);
    }
    out
}

/// Renders the one statement a resolved variable emits: an unset line for
/// `Flag(false)`, otherwise a set line whose value text follows the value's
/// variant.
pub fn process_variable(shell: &Shells, name: &str, raw_value: &EnvVariableValue) -> (r: String)
    ensures
        r@ == spec_process_variable(*shell, name@, *raw_value),
{
    match raw_value {
        EnvVariableValue::Flag(b) => {
            if *b {
                crate::shells::set_variable(shell, name, "1", false)
            } else {
                crate::shells::unset_variable(shell, name)
            }
        },
        EnvVariableValue::Text(s) => {
            let expanded = crate::shells::expand_value(shell, s.as_str());
            crate::shells::set_variable(shell, name, expanded.as_str(), false)
        },
        EnvVariableValue::List(aa) => {
            let flat = flatten_level(aa);
            let joined = expand_join(shell, &flat);
            let joined_str = crate::text::string_of(&joined);
            crate::shells::set_variable(shell, name, joined_str.as_str(), false)
        },
        EnvVariableValue::Path(p) => {
            let joined = expand_join(shell, p);
            let joined_str = crate::text::string_of(&joined);
            crate::shells::set_variable(shell, name, joined_str.as_str(), true)
        },
    }
}

/// Resolves a per-dialect override map for the dialect: the dialect's own
/// entry wins, the `_` entry is the fallback, and absence of both skips the
/// variable.
pub fn value_for_specific<'a>(shell: &Shells, map: &'a IndexMap<String, EnvVariableValue>) -> (r:
    Option<&'a EnvVariableValue>)
    ensures
        match r {
            Some(v) => spec_resolve_specific(*shell, value_entries(*map)) == Some(*v),
            None => spec_resolve_specific(*shell, value_entries(*map)) is None,
        },
{
    let name = shell.name();
    match value_get(map, name.as_str()) {
        Some(v) => Some(v),
        None => value_get(map, "_"),
    }
}

/// Converts the ordered variable definitions into a script for the given
/// dialect: one statement per resolved entry, in insertion order, each on
/// its own line, newline-terminated.
pub fn to_shell_source(vars: &EnvironmentVariables, shell: &Shells) -> (r: String)
    ensures
        r@ == spec_to_shell_source(env_entries(*vars), *shell),
{
    let n = env_len(vars);
    let mut out: Vec<char> = Vec::new();
    let mut emitted = false;
    let mut i: usize = 0;
    proof {
        assert(env_entries(*vars).take(0) =~= Seq::<(Seq<char>, EnvVariableOption)>::empty());
        assert(out@ =~= join_newlines(spec_lines(*shell, env_entries(*vars).take(0))));
    }
    while i < n
        invariant
            n == env_entries(*vars).len(),
            i <= n,
            out@ == join_newlines(spec_lines(*shell, env_entries(*vars).take(i as int))),
            emitted <==> spec_lines(*shell, env_entries(*vars).take(i as int)).len() > 0,
        decreases n - i,
    {
        let ghost entries = env_entries(*vars);
        let ghost lines0 = spec_lines(*shell, entries.take(i as int));
        let (name, option) = env_entry_at(vars, i);
        let resolved: Option<&EnvVariableValue> = match option {
            EnvVariableOption::General(v) => Some(v),
            EnvVariableOption::Specific(m) => value_for_specific(shell, m),
        };
        proof {
            lemma_spec_lines_snoc(*shell, entries.take(i as int), entries[i as int]);
            assert(entries.take(i + 1) =~= entries.take(i as int).push(entries[i as int]));
        }
        match resolved {
            Some(v) => {
                let line = process_variable(shell, name.as_str(), v);
                if emitted {
                    out.push('\n');
                }
                crate::text::append_str(&mut out, line.as_str());
                proof {
                    lemma_join_newlines_snoc(lines0, line@);
                    assert(spec_lines(*shell, entries.take(i + 1)) =~= lines0.push(line@));
                }
            },
            None => {
                proof {
                    assert(spec_lines(*shell, entries.take(i + 1)) =~= lines0);
                }
            },
        }
        if resolved.is_some() {
            emitted = true;
        }
        i = i + 1;
    }
    proof {
        assert(env_entries(*vars).take(n as int) =~= env_entries(*vars));
    }
    out.push('\n');
    proof {
        assert(out@ =~= join_newlines(spec_lines(*shell, env_entries(*vars))) + seq!['\n']);
    }
    crate::text::string_of(&out)
}

} // verus!
