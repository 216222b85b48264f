//! The value-expression parser.
//!
//! A raw configuration string is cut into an ordered sequence of typed
//! segments: literal text, shell-variable references (`$NAME`, `${NAME}`),
//! command substitutions (`$(...)`, balanced on nested parentheses), and
//! home-directory references (`~user` at the start of a word).  A backslash
//! before `$`, `~` or `\` makes the next character literal.  Parsing is
//! total: whatever fails to open a special form stays literal text.

use vstd::prelude::*;

verus! {

/// The kind of one parsed segment.
#[derive(Copy, Clone, PartialEq, Eq, Structural, Debug)]
pub enum ValuePartKind {
    /// Text emitted quoted, verbatim.
    Literal,
    /// A variable name, rendered as a live reference in the target shell.
    ShellVariable,
    /// A command line, rendered as a live command substitution.
    ShellCommand,
    /// A username (possibly empty), rendered as a live home-directory lookup.
    Home,
}

/// One parsed segment: its kind and its text.
#[derive(Clone, Debug)]
pub struct ValuePart {
    pub value: String,
    pub kind: ValuePartKind,
}

/// The mathematical form of a segment: its kind and the characters of its text.
pub type Seg = (ValuePartKind, Seq<char>);

/// The mathematical form of a parsed segment vector.
pub open spec fn seg_views(parts: Seq<ValuePart>) -> Seq<Seg> {
    parts.map_values(|p: ValuePart| (p.kind, p.value@))
}

/// A character that may occur in a shell identifier.
pub open spec fn is_ident_char(c: char) -> bool {
    ('a' <= c && c <= 'z') || ('A' <= c && c <= 'Z') || ('0' <= c && c <= '9') || c == '_'
}

/// A character that may start a shell identifier (no digit).
pub open spec fn is_ident_start(c: char) -> bool {
    ('a' <= c && c <= 'z') || ('A' <= c && c <= 'Z') || c == '_'
}

/// Position `i` begins a word: the start of the string, or right after
/// whitespace or a colon.
pub open spec fn is_word_start(s: Seq<char>, i: int) -> bool {
    i == 0 || s[i - 1] == ' ' || s[i - 1] == '\t' || s[i - 1] == ':'
}

/// The first position at or after `j` that does not hold an identifier
/// character (the end of the identifier run starting at `j`).
pub open spec fn ident_end(s: Seq<char>, j: int) -> int
    decreases s.len() - j,
{
    if 0 <= j < s.len() && is_ident_char(s[j]) {
        ident_end(s, j + 1)
    } else {
        j
    }
}

pub proof fn lemma_ident_end_bounds(s: Seq<char>, j: int)
    requires
        0 <= j <= s.len(),
    ensures
        j <= ident_end(s, j) <= s.len(),
    decreases s.len() - j,
{
    if j < s.len() && is_ident_char(s[j]) {
        lemma_ident_end_bounds(s, j + 1);
    }
}

/// Scans the inside of a `$(...)` form from position `j` at nesting `depth`,
/// with `content` the text gathered so far.  `\(` and `\)` contribute a
/// parenthesis without affecting the nesting.  Returns the gathered text and
/// the position just after the closing parenthesis, or `None` when the
/// parentheses never balance.
pub open spec fn scan_cmd(s: Seq<char>, j: int, depth: nat, content: Seq<char>) -> Option<
    (Seq<char>, int),
>
    decreases s.len() - j,
{
    if j < 0 || j >= s.len() {
        None
    } else if s[j] == '\\' && j + 1 < s.len() && (s[j + 1] == '(' || s[j + 1] == ')') {
        scan_cmd(s, j + 2, depth, content.push(s[j + 1]))
    } else if s[j] == '(' {
        scan_cmd(s, j + 1, depth + 1, content.push('('))
    } else if s[j] == ')' {
        if depth == 0 {
            Some((content, j + 1))
        } else {
            scan_cmd(s, j + 1, (depth - 1) as nat, content.push(')'))
        }
    } else {
        scan_cmd(s, j + 1, depth, content.push(s[j]))
    }
}

pub proof fn lemma_scan_cmd_bounds(s: Seq<char>, j: int, depth: nat, content: Seq<char>)
    requires
        scan_cmd(s, j, depth, content) is Some,
    ensures
        j < scan_cmd(s, j, depth, content)->Some_0.1 <= s.len(),
    decreases s.len() - j,
{
    if 0 <= j < s.len() {
        if s[j] == '\\' && j + 1 < s.len() && (s[j + 1] == '(' || s[j + 1] == ')') {
            lemma_scan_cmd_bounds(s, j + 2, depth, content.push(s[j + 1]));
        } else if s[j] == '(' {
            lemma_scan_cmd_bounds(s, j + 1, depth + 1, content.push('('));
        } else if s[j] == ')' {
            if depth != 0 {
                lemma_scan_cmd_bounds(s, j + 1, (depth - 1) as nat, content.push(')'));
            }
        } else {
            lemma_scan_cmd_bounds(s, j + 1, depth, content.push(s[j]));
        }
    }
}

/// Closes the pending literal run: appends it as one `Literal` segment,
/// unless it is empty.
pub open spec fn flush(acc: Seq<Seg>, lit: Seq<char>) -> Seq<Seg> {
    if lit.len() == 0 {
        acc
    } else {
        acc.push((ValuePartKind::Literal, lit))
    }
}

/// A `${NAME}` form stands at `i`: a nonempty identifier follows the brace
/// and a closing brace follows the identifier.
pub open spec fn brace_form(s: Seq<char>, i: int) -> bool {
    &&& i + 2 < s.len()
    &&& is_ident_start(s[i + 2])
    &&& ident_end(s, i + 2) < s.len()
    &&& s[ident_end(s, i + 2)] == '}'
}

/// A `~user` form stands at `i`: the identifier run after the tilde ends at
/// the end of the input or at a path separator.
pub open spec fn home_form(s: Seq<char>, i: int) -> bool {
    ident_end(s, i + 1) >= s.len() || s[ident_end(s, i + 1)] == '/'
}

/// One left-to-right scan of `s` from position `i`, longest match first, with
/// `lit` the pending literal run and `acc` the segments already produced.
pub open spec fn parse_loop(s: Seq<char>, i: int, lit: Seq<char>, acc: Seq<Seg>) -> Seq<Seg>
    decreases s.len() - i,
    when 0 <= i
    via parse_loop_dec
{
    if i >= s.len() {
        flush(acc, lit)
    } else {
        let c = s[i];
        if c == '\\' && i + 1 < s.len() && (s[i + 1] == '$' || s[i + 1] == '~' || s[i + 1]
            == '\\') {
            parse_loop(s, i + 2, lit.push(s[i + 1]), acc)
        } else if c == '$' && i + 1 < s.len() && s[i + 1] == '(' {
            match scan_cmd(s, i + 2, 0, Seq::empty()) {
                Some(r) => parse_loop(
                    s,
                    r.1,
                    Seq::empty(),
                    flush(acc, lit).push((ValuePartKind::ShellCommand, r.0)),
                ),
                None => flush(acc, lit + s.subrange(i, s.len() as int)),
            }
        } else if c == '$' && i + 1 < s.len() && s[i + 1] == '{' && brace_form(s, i) {
            parse_loop(
                s,
                ident_end(s, i + 2) + 1,
                Seq::empty(),
                flush(acc, lit).push(
                    (ValuePartKind::ShellVariable, s.subrange(i + 2, ident_end(s, i + 2))),
                ),
            )
        } else if c == '$' && i + 1 < s.len() && is_ident_start(s[i + 1]) {
            parse_loop(
                s,
                ident_end(s, i + 1),
                Seq::empty(),
                flush(acc, lit).push(
                    (ValuePartKind::ShellVariable, s.subrange(i + 1, ident_end(s, i + 1))),
                ),
            )
        } else if c == '~' && is_word_start(s, i) && home_form(s, i) {
            parse_loop(
                s,
                ident_end(s, i + 1),
                Seq::empty(),
                flush(acc, lit).push((ValuePartKind::Home, s.subrange(i + 1, ident_end(s, i + 1)))),
            )
        } else {
            parse_loop(s, i + 1, lit.push(c), acc)
        }
    }
}

#[via_fn]
proof fn parse_loop_dec(s: Seq<char>, i: int, lit: Seq<char>, acc: Seq<Seg>) {
    if 0 <= i < s.len() {
        let c = s[i];
        if c == '\\' && i + 1 < s.len() && (s[i + 1] == '$' || s[i + 1] == '~' || s[i + 1]
            == '\\') {
        } else if c == '$' && i + 1 < s.len() && s[i + 1] == '(' {
            if scan_cmd(s, i + 2, 0, Seq::empty()) is Some {
                lemma_scan_cmd_bounds(s, i + 2, 0, Seq::empty());
            }
        } else if c == '$' && i + 1 < s.len() && s[i + 1] == '{' && brace_form(s, i) {
            lemma_ident_end_bounds(s, i + 2);
        } else if c == '$' && i + 1 < s.len() && is_ident_start(s[i + 1]) {
            lemma_ident_end_bounds(s, i + 1);
        } else if c == '~' && is_word_start(s, i) && home_form(s, i) {
            lemma_ident_end_bounds(s, i + 1);
        }
    }
}

/// What `parse_value` returns: the segments of `s`, scanned left to right.
pub open spec fn spec_parse(s: Seq<char>) -> Seq<Seg> {
    parse_loop(s, 0, Seq::empty(), Seq::empty())
}

/// No character of `s` in `[i, s.len())` opens a special form or an escape.
pub open spec fn plain_from(s: Seq<char>, i: int) -> bool {
    forall|k: int| i <= k < s.len() ==> s[k] != '$' && s[k] != '~' && s[k] != '\\'
}

proof fn lemma_parse_plain_from(s: Seq<char>, i: int, lit: Seq<char>, acc: Seq<Seg>)
    requires
        0 <= i <= s.len(),
        plain_from(s, i),
    ensures
        parse_loop(s, i, lit, acc) == flush(acc, lit + s.subrange(i, s.len() as int)),
    decreases s.len() - i,
{
    if i >= s.len() {
        assert(lit + s.subrange(i, s.len() as int) =~= lit);
    } else {
        lemma_parse_plain_from(s, i + 1, lit.push(s[i]), acc);
        assert(lit.push(s[i]) + s.subrange(i + 1, s.len() as int) =~= lit + s.subrange(
            i,
            s.len() as int,
        ));
    }
}

/// Totality and reconstruction on escape-free input: a string that holds no
/// `$`, `~` or `\` parses to exactly one literal segment carrying the whole
/// input (or to no segment at all when the input is empty), so the
/// concatenation of the segment texts is the input itself.
pub proof fn lemma_parse_plain(s: Seq<char>)
    requires
        plain_from(s, 0),
    ensures
        s.len() == 0 ==> spec_parse(s) == Seq::<Seg>::empty(),
        s.len() > 0 ==> spec_parse(s) == seq![(ValuePartKind::Literal, s)],
{
    lemma_parse_plain_from(s, 0, Seq::empty(), Seq::empty());
    assert(Seq::<char>::empty() + s.subrange(0, s.len() as int) =~= s);
    if s.len() > 0 {
        assert(Seq::<Seg>::empty().push((ValuePartKind::Literal, s)) =~= seq![
            (ValuePartKind::Literal, s),
        ]);
    }
}

/// A segment sequence in normal form: literal segments are never empty and
/// never adjacent (adjacent literal runs have coalesced into one segment).
pub open spec fn normalized_segs(segs: Seq<Seg>) -> bool {
    &&& forall|i: int|
        0 <= i < segs.len() && (#[trigger] segs[i]).0 == ValuePartKind::Literal ==> segs[i].1.len()
            > 0
    &&& forall|i: int|
        0 <= i && i + 1 < segs.len() ==> !((#[trigger] segs[i]).0 == ValuePartKind::Literal && segs[
            i + 1
        ].0 == ValuePartKind::Literal)
}

proof fn lemma_push_keeps_normalized(segs: Seq<Seg>, x: Seg)
    requires
        normalized_segs(segs),
        x.0 == ValuePartKind::Literal ==> x.1.len() > 0 && (segs.len() == 0 || segs.last().0
            != ValuePartKind::Literal),
    ensures
        normalized_segs(segs.push(x)),
{
    let t = segs.push(x);
    assert forall|i: int|
        0 <= i < t.len() && (#[trigger] t[i]).0 == ValuePartKind::Literal implies t[i].1.len()
        > 0 by {
        if i < segs.len() {
            assert(t[i] == segs[i]);
        } else {
            assert(t[i] == x);
        }
    }
    assert forall|i: int|
        0 <= i && i + 1 < t.len() implies !((#[trigger] t[i]).0 == ValuePartKind::Literal && t[i
        + 1].0 == ValuePartKind::Literal) by {
        if i + 1 < segs.len() {
            assert(t[i] == segs[i] && t[i + 1] == segs[i + 1]);
        } else {
            assert(t[i] == segs[segs.len() - 1] && t[i + 1] == x);
        }
    }
}

proof fn lemma_flush_normalized(acc: Seq<Seg>, lit: Seq<char>)
    requires
        normalized_segs(acc),
        acc.len() > 0 ==> acc.last().0 != ValuePartKind::Literal,
    ensures
        normalized_segs(flush(acc, lit)),
{
    if lit.len() > 0 {
        lemma_push_keeps_normalized(acc, (ValuePartKind::Literal, lit));
    }
}

proof fn lemma_step_special(acc: Seq<Seg>, lit: Seq<char>, x: Seg)
    requires
        normalized_segs(acc),
        acc.len() > 0 ==> acc.last().0 != ValuePartKind::Literal,
        x.0 != ValuePartKind::Literal,
    ensures
        normalized_segs(flush(acc, lit).push(x)),
        flush(acc, lit).push(x).last().0 != ValuePartKind::Literal,
{
    lemma_flush_normalized(acc, lit);
    lemma_push_keeps_normalized(flush(acc, lit), x);
}

#[verifier::rlimit(60)]
proof fn lemma_parse_loop_normalized(s: Seq<char>, i: int, lit: Seq<char>, acc: Seq<Seg>)
    requires
        0 <= i <= s.len(),
        normalized_segs(acc),
        acc.len() > 0 ==> acc.last().0 != ValuePartKind::Literal,
    ensures
        normalized_segs(parse_loop(s, i, lit, acc)),
    decreases s.len() - i,
{
    if i >= s.len() {
        if lit.len() > 0 {
            lemma_push_keeps_normalized(acc, (ValuePartKind::Literal, lit));
        }
    } else {
        let c = s[i];
        if c == '\\' && i + 1 < s.len() && (s[i + 1] == '$' || s[i + 1] == '~' || s[i + 1]
            == '\\') {
            lemma_parse_loop_normalized(s, i + 2, lit.push(s[i + 1]), acc);
        } else if c == '$' && i + 1 < s.len() && s[i + 1] == '(' {
            match scan_cmd(s, i + 2, 0, Seq::empty()) {
                Some(r) => {
                    lemma_scan_cmd_bounds(s, i + 2, 0, Seq::empty());
                    lemma_step_special(acc, lit, (ValuePartKind::ShellCommand, r.0));
                    lemma_parse_loop_normalized(
                        s,
                        r.1,
                        Seq::empty(),
                        flush(acc, lit).push((ValuePartKind::ShellCommand, r.0)),
                    );
                },
                None => {
                    assert((lit + s.subrange(i, s.len() as int)).len() > 0);
                    lemma_push_keeps_normalized(
                        acc,
                        (ValuePartKind::Literal, lit + s.subrange(i, s.len() as int)),
                    );
                },
            }
        } else if c == '$' && i + 1 < s.len() && s[i + 1] == '{' && brace_form(s, i) {
            lemma_ident_end_bounds(s, i + 2);
            lemma_step_special(
                acc,
                lit,
                (ValuePartKind::ShellVariable, s.subrange(i + 2, ident_end(s, i + 2))),
            );
            lemma_parse_loop_normalized(
                s,
                ident_end(s, i + 2) + 1,
                Seq::empty(),
                flush(acc, lit).push(
                    (ValuePartKind::ShellVariable, s.subrange(i + 2, ident_end(s, i + 2))),
                ),
            );
        } else if c == '$' && i + 1 < s.len() && is_ident_start(s[i + 1]) {
            lemma_ident_end_bounds(s, i + 1);
            lemma_step_special(
                acc,
                lit,
                (ValuePartKind::ShellVariable, s.subrange(i + 1, ident_end(s, i + 1))),
            );
            lemma_parse_loop_normalized(
                s,
                ident_end(s, i + 1),
                Seq::empty(),
                flush(acc, lit).push(
                    (ValuePartKind::ShellVariable, s.subrange(i + 1, ident_end(s, i + 1))),
                ),
            );
        } else if c == '~' && is_word_start(s, i) && home_form(s, i) {
            lemma_ident_end_bounds(s, i + 1);
            lemma_step_special(
                acc,
                lit,
                (ValuePartKind::Home, s.subrange(i + 1, ident_end(s, i + 1))),
            );
            lemma_parse_loop_normalized(
                s,
                ident_end(s, i + 1),
                Seq::empty(),
                flush(acc, lit).push((ValuePartKind::Home, s.subrange(i + 1, ident_end(s, i + 1)))),
            );
        } else {
            lemma_parse_loop_normalized(s, i + 1, lit.push(c), acc);
        }
    }
}

/// Normalization: whatever the input, the parsed segments are in normal
/// form: no literal segment is empty and no two literal segments stand next
/// to each other.
pub proof fn lemma_parse_normalized(s: Seq<char>)
    ensures
        normalized_segs(spec_parse(s)),
{
    lemma_parse_loop_normalized(s, 0, Seq::empty(), Seq::empty());
}

/// Decides [`is_ident_char`].
pub fn ident_char(c: char) -> (b: bool)
    ensures
        b == is_ident_char(c),
{
    ('a' <= c && c <= 'z') || ('A' <= c && c <= 'Z') || ('0' <= c && c <= '9') || c == '_'
}

/// Decides [`is_ident_start`].
pub fn ident_start(c: char) -> (b: bool)
    ensures
        b == is_ident_start(c),
{
    ('a' <= c && c <= 'z') || ('A' <= c && c <= 'Z') || c == '_'
}

/// Walks to the end of the identifier run that starts at `start`.
fn scan_ident(cs: &Vec<char>, start: usize) -> (j: usize)
    requires
        start <= cs@.len(),
    ensures
        j == ident_end(cs@, start as int),
        start <= j <= cs@.len(),
{
    let mut j = start;
    while j < cs.len() && ident_char(cs[j])
        invariant
            start <= j <= cs@.len(),
            ident_end(cs@, start as int) == ident_end(cs@, j as int),
        decreases cs@.len() - j,
    {
        j = j + 1;
    }
    j
}

proof fn lemma_seg_views_push(parts: Seq<ValuePart>, p: ValuePart)
    ensures
        seg_views(parts.push(p)) == seg_views(parts).push((p.kind, p.value@)),
{
    assert(seg_views(parts.push(p)) =~= seg_views(parts).push((p.kind, p.value@)));
}

/// Moves the pending literal run into `acc` as one `Literal` segment, unless
/// it is empty, and empties the run.
fn flush_lit(acc: &mut Vec<ValuePart>, lit: &mut Vec<char>)
    ensures
        seg_views(final(acc)@) == flush(seg_views(old(acc)@), old(lit)@),
        final(lit)@ == Seq::<char>::empty(),
{
    if lit.len() > 0 {
        let text = crate::text::string_of(lit);
        let ghost parts0 = acc@;
        acc.push(ValuePart { value: text, kind: ValuePartKind::Literal });
        proof {
            lemma_seg_views_push(parts0, ValuePart { value: text, kind: ValuePartKind::Literal });
        }
        lit.clear();
    } else {
        proof {
            assert(lit@ =~= Seq::<char>::empty());
        }
    }
}

/// Appends one non-literal segment after flushing the pending literal run.
fn push_seg(acc: &mut Vec<ValuePart>, lit: &mut Vec<char>, kind: ValuePartKind, text: String)
    ensures
        seg_views(final(acc)@) == flush(seg_views(old(acc)@), old(lit)@).push((kind, text@)),
        final(lit)@ == Seq::<char>::empty(),
{
    flush_lit(acc, lit);
    let ghost parts0 = acc@;
    acc.push(ValuePart { value: text, kind });
    proof {
        lemma_seg_views_push(parts0, ValuePart { value: text, kind });
    }
}

/// Parses one raw string into its ordered sequence of typed segments.
///
/// Parsing is total: every input yields a segment sequence, and text that
/// opens no special form participates as literal text.
pub fn parse_value(value: &str) -> (r: Vec<ValuePart>)
    ensures
        seg_views(r@) == spec_parse(value@),
{
    let cs = crate::text::chars_of(value);
    let n = cs.len();
    let mut i: usize = 0;
    let mut lit: Vec<char> = Vec::new();
    let mut acc: Vec<ValuePart> = Vec::new();
    proof {
        assert(lit@ =~= Seq::<char>::empty());
        assert(seg_views(acc@) =~= Seq::<Seg>::empty());
    }
    while i < n
        invariant
            cs@ == value@,
            n == cs@.len(),
            i <= n,
            spec_parse(value@) == parse_loop(cs@, i as int, lit@, seg_views(acc@)),
        decreases n - i,
    {
        let c = cs[i];
        if c == '\\' && i + 1 < n && (cs[i + 1] == '$' || cs[i + 1] == '~' || cs[i + 1] == '\\') {
            lit.push(cs[i + 1]);
            i = i + 2;
        } else if c == '$' && i + 1 < n && cs[i + 1] == '(' {
            let mut j = i + 2;
            let mut depth: usize = 0;
            let mut content: Vec<char> = Vec::new();
            let mut end: usize = 0;
            let mut found = false;
            while j < n && !found
                invariant
                    cs@ == value@,
                    n == cs@.len(),
                    i + 2 <= j <= n,
                    depth <= j,
                    !found ==> scan_cmd(cs@, i + 2, 0, Seq::empty()) == scan_cmd(
                        cs@,
                        j as int,
                        depth as nat,
                        content@,
                    ),
                    found ==> scan_cmd(cs@, i + 2, 0, Seq::empty()) == Some(
                        (content@, end as int),
                    ) && i + 2 < end <= n,
                decreases n - j,
            {
                let d = cs[j];
                if d == '\\' && j + 1 < n && (cs[j + 1] == '(' || cs[j + 1] == ')') {
                    content.push(cs[j + 1]);
                    j = j + 2;
                } else if d == '(' {
                    content.push('(');
                    depth = depth + 1;
                    j = j + 1;
                } else if d == ')' {
                    if depth == 0 {
                        found = true;
                        end = j + 1;
                        j = j + 1;
                    } else {
                        content.push(')');
                        depth = depth - 1;
                        j = j + 1;
                    }
                } else {
                    content.push(d);
                    j = j + 1;
                }
            }
            if found {
                let text = crate::text::string_of(&content);
                push_seg(&mut acc, &mut lit, ValuePartKind::ShellCommand, text);
                i = end;
            } else {
                let rest = crate::text::copy_range(&cs, i, n);
                crate::text::append_chars(&mut lit, &rest);
                i = n;
            }
        } else if c == '$' && i + 1 < n && cs[i + 1] == '{' {
            let mut ok = false;
            let mut j: usize = 0;
            if i + 2 < n && ident_start(cs[i + 2]) {
                j = scan_ident(&cs, i + 2);
                if j < n && cs[j] == '}' {
                    ok = true;
                }
            }
            if ok {
                let name = crate::text::copy_range(&cs, i + 2, j);
                let text = crate::text::string_of(&name);
                push_seg(&mut acc, &mut lit, ValuePartKind::ShellVariable, text);
                i = j + 1;
            } else {
                proof {
                    assert(!brace_form(cs@, i as int));
                }
                lit.push('$');
                i = i + 1;
            }
        } else if c == '$' && i + 1 < n && ident_start(cs[i + 1]) {
            let j = scan_ident(&cs, i + 1);
            let name = crate::text::copy_range(&cs, i + 1, j);
            let text = crate::text::string_of(&name);
            push_seg(&mut acc, &mut lit, ValuePartKind::ShellVariable, text);
            i = j;
        } else if c == '~' && (i == 0 || cs[i - 1] == ' ' || cs[i - 1] == '\t' || cs[i - 1]
            == ':') {
            let j = scan_ident(&cs, i + 1);
            if j == n || cs[j] == '/' {
                let user = crate::text::copy_range(&cs, i + 1, j);
                let text = crate::text::string_of(&user);
                push_seg(&mut acc, &mut lit, ValuePartKind::Home, text);
                i = j;
            } else {
                lit.push('~');
                i = i + 1;
            }
        } else {
            lit.push(c);
            i = i + 1;
        }
    }
    flush_lit(&mut acc, &mut lit);
    acc
}

} // verus!
