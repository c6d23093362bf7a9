//! The `syntax.ff` preprocessor.
//!
//! A syntax profile defines commands: `command name(params) { body }`. A
//! source line `name: args` that invokes a statement command is replaced by
//! the command's body with each parameter word replaced by its argument. A
//! command whose body is a single `ll.expr` line is an expression command:
//! `name: args` anywhere in a line is replaced by the parenthesised
//! expression. Finally the low-level `ll.*` forms are lowered to the
//! language's own statements.
//!
//! Everything here is stated over character sequences; the preprocessor
//! works on `Vec<char>` and hands back `String`s.

use vstd::prelude::*;
use crate::chars::{
    is_space, trim, trimmed, lemma_trim_idempotent, starts_with, has_prefix, chars_equal, find_char, position_of,
    lemma_find_char_facts, copy_range, append_chars, views, lines_of, split_lines, join_lines,
    join_with_newlines, split_on, split_at_char, is_ascii_space, ascii_space, occurs_at,
};
use crate::text::{chars_of, string_of};
use crate::name_map::{NameMap, has_name, insert_entry, distinct_names};

verus! {

/// A command of a syntax profile: its parameter names and its body lines.
#[derive(Debug, Clone)]
pub struct CommandDef {
    pub params: Vec<String>,
    pub body: Vec<String>,
}

/// The character sequences of a list of strings.
pub open spec fn strs(v: Seq<String>) -> Seq<Seq<char>> {
    v.map_values(|s: String| s@)
}

/// Every parameter has a non-empty name.
pub open spec fn params_named(ps: Seq<Seq<char>>) -> bool {
    forall|j: int| 0 <= j < ps.len() ==> #[trigger] ps[j].len() > 0
}

impl CommandDef {
    /// The parameter names.
    pub open spec fn params_view(&self) -> Seq<Seq<char>> {
        strs(self.params@)
    }

    /// The body lines.
    pub open spec fn body_view(&self) -> Seq<Seq<char>> {
        strs(self.body@)
    }
}

/// Whether `c` may be part of an identifier: an ASCII letter or digit, or `_`.
pub open spec fn is_ident(c: char) -> bool {
    let u = c as u32;
    (48 <= u <= 57) || (65 <= u <= 90) || (97 <= u <= 122) || u == 95
}

/// Whether `c` may be part of an identifier.
pub fn is_ident_char(c: char) -> (r: bool)
    ensures
        r == is_ident(c),
{
    let u = c as u32;
    (48 <= u && u <= 57) || (65 <= u && u <= 90) || (97 <= u && u <= 122) || u == 95
}

/// `w` stands at position `i` of `s` as a whole word: the characters match
/// and no identifier character touches it on either side.
pub open spec fn word_at(s: Seq<char>, w: Seq<char>, i: int) -> bool {
    &&& 0 <= i
    &&& i + w.len() <= s.len()
    &&& s.subrange(i, i + w.len()) == w
    &&& (i == 0 || !is_ident(s[i - 1]))
    &&& (i + w.len() == s.len() || !is_ident(s[i + w.len()]))
}

/// Whether `w` stands at `i` of `s` as a whole word.
fn word_at_exec(s: &[char], w: &[char], i: usize) -> (r: bool)
    requires
        i <= s@.len(),
    ensures
        r == word_at(s@, w@, i as int),
{
    if !occurs_at(s, w, i) {
        return false;
    }
    let before_ok = i == 0 || !is_ident_char(s[i - 1]);
    let after_ok = i + w.len() == s.len() || !is_ident_char(s[i + w.len()]);
    before_ok && after_ok
}

/// What replacing the whole-word occurrences of `w` by `rep` makes of `s`
/// from position `i` on, scanning left to right.
pub open spec fn replace_from(s: Seq<char>, w: Seq<char>, rep: Seq<char>, i: int) -> Seq<char>
    decreases s.len() - i,
{
    if i < 0 || i >= s.len() {
        seq![]
    } else if w.len() > 0 && word_at(s, w, i) {
        rep + replace_from(s, w, rep, i + w.len())
    } else {
        seq![s[i]] + replace_from(s, w, rep, i + 1)
    }
}

/// `s` with every whole-word occurrence of `w` replaced by `rep`.
pub open spec fn replace_word_spec(s: Seq<char>, w: Seq<char>, rep: Seq<char>) -> Seq<char> {
    replace_from(s, w, rep, 0)
}

/// Replaces the whole-word occurrences of `w` in `s` by `rep`.
fn replace_word_chars(s: &[char], w: &[char], rep: &[char]) -> (r: Vec<char>)
    requires
        w@.len() > 0,
    ensures
        r@ == replace_word_spec(s@, w@, rep@),
{
    let mut out: Vec<char> = Vec::new();
    let mut i: usize = 0;
    while i < s.len()
        invariant
            i <= s@.len(),
            w@.len() > 0,
            replace_word_spec(s@, w@, rep@) == out@ + replace_from(s@, w@, rep@, i as int),
        decreases s.len() - i,
    {
        if word_at_exec(s, w, i) {
            let ghost prev = out@;
            append_chars(&mut out, rep);
            assert(prev + (rep@ + replace_from(s@, w@, rep@, i + w@.len())) =~= out@ + replace_from(
                s@,
                w@,
                rep@,
                i + w@.len(),
            ));
            i = i + w.len();
        } else {
            let ghost prev = out@;
            out.push(s[i]);
            assert(prev + (seq![s@[i as int]] + replace_from(s@, w@, rep@, i + 1)) =~= out@
                + replace_from(s@, w@, rep@, i + 1));
            i = i + 1;
        }
    }
    assert(out@ + Seq::<char>::empty() =~= out@);
    out
}

/// Replaces every whole-word occurrence of `word` in `line` by `replacement`.
pub fn replace_word(line: &str, word: &str, replacement: &str) -> (r: String)
    requires
        word@.len() > 0,
    ensures
        r@ == replace_word_spec(line@, word@, replacement@),
{
    let s = chars_of(line);
    let w = chars_of(word);
    let rep = chars_of(replacement);
    let out = replace_word_chars(s.as_slice(), w.as_slice(), rep.as_slice());
    string_of(out.as_slice())
}

/// `s` with each parameter word replaced by its argument, pairing the
/// parameters and arguments in order and stopping at the shorter list.
pub open spec fn subst(s: Seq<char>, ps: Seq<Seq<char>>, args: Seq<Seq<char>>) -> Seq<char>
    decreases ps.len(),
{
    if ps.len() == 0 || args.len() == 0 {
        s
    } else {
        subst(replace_word_spec(s, ps[0], args[0]), ps.drop_first(), args.drop_first())
    }
}

/// One more parameter substituted.
proof fn lemma_subst_step(s: Seq<char>, ps: Seq<Seq<char>>, args: Seq<Seq<char>>, k: int)
    requires
        0 <= k < ps.len(),
        k < args.len(),
    ensures
        subst(s, ps.skip(k), args.skip(k)) == subst(
            replace_word_spec(s, ps[k], args[k]),
            ps.skip(k + 1),
            args.skip(k + 1),
        ),
{
    assert(ps.skip(k).drop_first() =~= ps.skip(k + 1));
    assert(args.skip(k).drop_first() =~= args.skip(k + 1));
}

/// Substitutes the parameters of a command in one line.
fn subst_chars(line: Vec<char>, params: &Vec<String>, args: &Vec<String>) -> (r: Vec<char>)
    requires
        params_named(strs(params@)),
    ensures
        r@ == subst(line@, strs(params@), strs(args@)),
{
    let ghost ps = strs(params@);
    let ghost a = strs(args@);
    let mut cur = line;
    let n = if params.len() < args.len() { params.len() } else { args.len() };
    let mut k: usize = 0;
    assert(ps.skip(0) =~= ps);
    assert(a.skip(0) =~= a);
    while k < n
        invariant
            k <= n,
            n <= params@.len(),
            n <= args@.len(),
            n == params@.len() || n == args@.len(),
            ps == strs(params@),
            a == strs(args@),
            params_named(ps),
            subst(line@, ps, a) == subst(cur@, ps.skip(k as int), a.skip(k as int)),
        decreases n - k,
    {
        proof { lemma_subst_step(cur@, ps, a, k as int); }
        let w = chars_of(params[k].as_str());
        let rep = chars_of(args[k].as_str());
        assert(ps[k as int].len() > 0);
        cur = replace_word_chars(cur.as_slice(), w.as_slice(), rep.as_slice());
        k = k + 1;
    }
    assert(ps.skip(k as int).len() == 0 || a.skip(k as int).len() == 0);
    cur
}

/// The body of a statement command with its parameters replaced by `args`.
pub open spec fn expand_command_spec(
    params: Seq<Seq<char>>,
    body: Seq<Seq<char>>,
    args: Seq<Seq<char>>,
) -> Seq<Seq<char>> {
    body.map_values(|l: Seq<char>| subst(l, params, args))
}

/// Expands a statement command: its body lines with the parameters replaced
/// by the arguments.
pub fn expand_command(def: &CommandDef, args: &Vec<String>) -> (r: Vec<String>)
    requires
        params_named(def.params_view()),
    ensures
        strs(r@) == expand_command_spec(def.params_view(), def.body_view(), strs(args@)),
{
    let mut out: Vec<String> = Vec::new();
    for i in 0..def.body.len()
        invariant
            params_named(def.params_view()),
            strs(out@) == expand_command_spec(def.params_view(), def.body_view(), strs(args@)).take(
                i as int,
            ),
    {
        let line = chars_of(def.body[i].as_str());
        let done = subst_chars(line, &def.params, args);
        let ghost prev = out@;
        let ghost e = expand_command_spec(def.params_view(), def.body_view(), strs(args@));
        assert(def.body_view()[i as int] == def.body@[i as int]@);
        assert(e[i as int] == done@);
        out.push(string_of(done.as_slice()));
        assert(strs(out@) =~= strs(prev).push(done@));
        assert(e.take(i + 1) =~= e.take(i as int).push(done@));
    }
    assert(expand_command_spec(def.params_view(), def.body_view(), strs(args@)).take(
        def.body@.len() as int,
    ) =~= expand_command_spec(def.params_view(), def.body_view(), strs(args@)));
    out
}

/// What follows `p1` in `s`, else what follows `p2`, if `s` begins with either.
pub open spec fn strip_either(s: Seq<char>, p1: Seq<char>, p2: Seq<char>) -> Option<Seq<char>> {
    if starts_with(s, p1) {
        Some(s.skip(p1.len() as int))
    } else if starts_with(s, p2) {
        Some(s.skip(p2.len() as int))
    } else {
        None
    }
}

/// What follows `p` in `s`, if `s` begins with `p`.
fn strip_prefix_chars(s: &[char], p: &str) -> (r: Option<Vec<char>>)
    ensures
        r is Some == starts_with(s@, p@),
        r matches Some(t) ==> t@ == s@.skip(p@.len() as int),
{
    if has_prefix(s, p) {
        let n = chars_of(p).len();
        Some(copy_range(s, n, s.len()))
    } else {
        None
    }
}

/// What follows `p1` in `s`, else what follows `p2`.
fn strip_either_chars(s: &[char], p1: &str, p2: &str) -> (r: Option<Vec<char>>)
    ensures
        r matches Some(t) ==> strip_either(s@, p1@, p2@) == Some(t@),
        r is None ==> strip_either(s@, p1@, p2@) is None,
{
    match strip_prefix_chars(s, p1) {
        Some(t) => Some(t),
        None => strip_prefix_chars(s, p2),
    }
}

/// A command whose body is a single `ll.expr` line.
pub open spec fn is_expression_spec(body: Seq<Seq<char>>) -> bool {
    body.len() == 1 && strip_either(trim(body[0]), "ll.expr "@, "ll.expr:"@) is Some
}

/// Whether `def` is an expression command.
pub fn is_expression_command(def: &CommandDef) -> (r: bool)
    ensures
        r == is_expression_spec(def.body_view()),
{
    if def.body.len() != 1 {
        return false;
    }
    let line = chars_of(def.body[0].as_str());
    let t = trimmed(line.as_slice());
    strip_either_chars(t.as_slice(), "ll.expr ", "ll.expr:").is_some()
}

/// The expression of an expression command with its parameters replaced.
pub open spec fn expression_template_spec(
    params: Seq<Seq<char>>,
    body: Seq<Seq<char>>,
    args: Seq<Seq<char>>,
) -> Option<Seq<char>> {
    if body.len() == 0 {
        None
    } else {
        match strip_either(trim(body[0]), "ll.expr "@, "ll.expr:"@) {
            Some(rest) => Some(subst(trim(rest), params, args)),
            None => None,
        }
    }
}

/// The expression of `def` for `args`, if its first body line is an
/// `ll.expr` line.
fn expression_template_chars(def: &CommandDef, args: &Vec<String>) -> (r: Option<Vec<char>>)
    requires
        params_named(def.params_view()),
    ensures
        r matches Some(t) ==> expression_template_spec(def.params_view(), def.body_view(), strs(args@))
            == Some(t@),
        r is None ==> expression_template_spec(def.params_view(), def.body_view(), strs(args@))
            is None,
{
    if def.body.len() == 0 {
        return None;
    }
    let line = chars_of(def.body[0].as_str());
    let t = trimmed(line.as_slice());
    match strip_either_chars(t.as_slice(), "ll.expr ", "ll.expr:") {
        Some(rest) => {
            let e = trimmed(rest.as_slice());
            Some(subst_chars(e, &def.params, args))
        },
        None => None,
    }
}

/// The expression of `def` for `args`, if its first body line is an
/// `ll.expr` line.
pub fn expression_template(def: &CommandDef, args: &Vec<String>) -> (r: Option<String>)
    requires
        params_named(def.params_view()),
    ensures
        r matches Some(t) ==> expression_template_spec(def.params_view(), def.body_view(), strs(args@))
            == Some(t@),
        r is None ==> expression_template_spec(def.params_view(), def.body_view(), strs(args@))
            is None,
{
    match expression_template_chars(def, args) {
        Some(t) => Some(string_of(t.as_slice())),
        None => None,
    }
}

/// The arguments of a statement piece, pushed when not blank.
pub open spec fn piece_of(cur: Seq<char>) -> Seq<Seq<char>> {
    if trim(cur).len() > 0 {
        seq![trim(cur)]
    } else {
        seq![]
    }
}

/// A bracket depth one lower, not going below zero.
pub open spec fn dec(d: nat) -> nat {
    if d == 0 {
        0
    } else {
        (d - 1) as nat
    }
}

/// The arguments that splitting at top-level commas yields from position `i`
/// of `s` on, given the piece `cur` gathered so far, the depths of round,
/// curly and square brackets, and whether the scan is inside a string
/// literal and right after a backslash there.
pub open spec fn split_args_from(
    s: Seq<char>,
    i: int,
    cur: Seq<char>,
    dp: nat,
    db: nat,
    dk: nat,
    ins: bool,
    esc: bool,
) -> Seq<Seq<char>>
    decreases s.len() - i,
{
    if i < 0 || i >= s.len() {
        piece_of(cur)
    } else {
        let ch = s[i];
        if ins {
            if esc {
                split_args_from(s, i + 1, cur.push(ch), dp, db, dk, true, false)
            } else if ch == '\\' {
                split_args_from(s, i + 1, cur.push(ch), dp, db, dk, true, true)
            } else if ch == '"' {
                split_args_from(s, i + 1, cur.push(ch), dp, db, dk, false, false)
            } else {
                split_args_from(s, i + 1, cur.push(ch), dp, db, dk, true, false)
            }
        } else if ch == '"' {
            split_args_from(s, i + 1, cur.push(ch), dp, db, dk, true, esc)
        } else if ch == '(' {
            split_args_from(s, i + 1, cur.push(ch), dp + 1, db, dk, false, esc)
        } else if ch == ')' {
            split_args_from(s, i + 1, cur.push(ch), dec(dp), db, dk, false, esc)
        } else if ch == '{' {
            split_args_from(s, i + 1, cur.push(ch), dp, db + 1, dk, false, esc)
        } else if ch == '}' {
            split_args_from(s, i + 1, cur.push(ch), dp, dec(db), dk, false, esc)
        } else if ch == '[' {
            split_args_from(s, i + 1, cur.push(ch), dp, db, dk + 1, false, esc)
        } else if ch == ']' {
            split_args_from(s, i + 1, cur.push(ch), dp, db, dec(dk), false, esc)
        } else if ch == ',' && dp == 0 && db == 0 && dk == 0 {
            piece_of(cur) + split_args_from(s, i + 1, seq![], dp, db, dk, false, esc)
        } else {
            split_args_from(s, i + 1, cur.push(ch), dp, db, dk, false, esc)
        }
    }
}

/// The comma-separated arguments of `s`: split at the commas outside any
/// brackets and string literals, each trimmed, blank ones left out.
pub open spec fn split_args(s: Seq<char>) -> Seq<Seq<char>> {
    split_args_from(s, 0, seq![], 0, 0, 0, false, false)
}

/// Pushes the trimmed piece `cur` onto `args` if it is not blank.
fn push_piece(args: &mut Vec<Vec<char>>, cur: &[char])
    ensures
        views(final(args)@) == views(old(args)@) + piece_of(cur@),
{
    let t = trimmed(cur);
    if t.len() > 0 {
        let ghost prev = args@;
        args.push(t);
        assert(views(args@) =~= views(prev) + piece_of(cur@));
    } else {
        assert(views(args@) + piece_of(cur@) =~= views(args@));
    }
}

/// Splits `s` into its top-level comma-separated arguments.
fn split_args_chars(s: &[char]) -> (r: Vec<Vec<char>>)
    ensures
        views(r@) == split_args(s@),
{
    let n = s.len();
    let mut args: Vec<Vec<char>> = Vec::new();
    let mut cur: Vec<char> = Vec::new();
    let mut dp: usize = 0;
    let mut db: usize = 0;
    let mut dk: usize = 0;
    let mut ins = false;
    let mut esc = false;
    let mut i: usize = 0;
    while i < n
        invariant
            i <= n,
            n == s@.len(),
            dp <= i,
            db <= i,
            dk <= i,
            split_args(s@) == views(args@) + split_args_from(
                s@,
                i as int,
                cur@,
                dp as nat,
                db as nat,
                dk as nat,
                ins,
                esc,
            ),
        decreases n - i,
    {
        let ch = s[i];
        let ghost a0 = views(args@);
        let ghost c0 = cur@;
        if ins {
            cur.push(ch);
            if esc {
                esc = false;
            } else if ch == '\\' {
                esc = true;
            } else if ch == '"' {
                ins = false;
            }
        } else if ch == '"' {
            ins = true;
            cur.push(ch);
        } else if ch == '(' {
            dp = dp + 1;
            cur.push(ch);
        } else if ch == ')' {
            dp = if dp > 0 { dp - 1 } else { 0 };
            cur.push(ch);
        } else if ch == '{' {
            db = db + 1;
            cur.push(ch);
        } else if ch == '}' {
            db = if db > 0 { db - 1 } else { 0 };
            cur.push(ch);
        } else if ch == '[' {
            dk = dk + 1;
            cur.push(ch);
        } else if ch == ']' {
            dk = if dk > 0 { dk - 1 } else { 0 };
            cur.push(ch);
        } else if ch == ',' && dp == 0 && db == 0 && dk == 0 {
            push_piece(&mut args, cur.as_slice());
            cur = Vec::new();
            assert(a0 + (piece_of(c0) + split_args_from(s@, i + 1, seq![], 0, 0, 0, false, esc))
                =~= views(args@) + split_args_from(s@, i + 1, cur@, 0, 0, 0, false, esc));
        } else {
            cur.push(ch);
        }
        i = i + 1;
    }
    push_piece(&mut args, cur.as_slice());
    args
}

/// Splits `source` into its top-level comma-separated arguments: commas
/// inside brackets or string literals do not split, each argument is
/// trimmed, and blank arguments are dropped.
pub fn split_top_level_args(source: &str) -> (r: Vec<String>)
    ensures
        strs(r@) == split_args(source@),
{
    let s = chars_of(source);
    let v = split_args_chars(s.as_slice());
    strings_of(&v)
}

/// The strings made of each character vector.
fn strings_of(v: &Vec<Vec<char>>) -> (r: Vec<String>)
    ensures
        strs(r@) == views(v@),
{
    let mut out: Vec<String> = Vec::new();
    for i in 0..v.len()
        invariant
            strs(out@) == views(v@).take(i as int),
    {
        let ghost prev = out@;
        let t = string_of(v[i].as_slice());
        out.push(t);
        assert(strs(out@) =~= strs(prev).push(v@[i as int]@));
        assert(views(v@).take(i + 1) =~= views(v@).take(i as int).push(v@[i as int]@));
    }
    assert(views(v@).take(v@.len() as int) =~= views(v@));
    out
}

/// The character vectors of each string.
fn char_vecs_of(v: &[String]) -> (r: Vec<Vec<char>>)
    ensures
        views(r@) == strs(v@),
{
    let mut out: Vec<Vec<char>> = Vec::new();
    for i in 0..v.len()
        invariant
            views(out@) == strs(v@).take(i as int),
    {
        let ghost prev = out@;
        let t = chars_of(v[i].as_str());
        out.push(t);
        assert(views(out@) =~= views(prev).push(v@[i as int]@));
        assert(strs(v@).take(i + 1) =~= strs(v@).take(i as int).push(v@[i as int]@));
    }
    assert(strs(v@).take(v@.len() as int) =~= strs(v@));
    out
}

/// Whether every character of `s` may be part of an identifier.
pub open spec fn all_ident(s: Seq<char>) -> bool {
    forall|j: int| 0 <= j < s.len() ==> #[trigger] is_ident(s[j])
}

/// The command that a statement line `name: args` invokes, with its
/// arguments; `None` when the line has no colon or what precedes the first
/// colon is not an identifier.
pub open spec fn command_invocation(line: Seq<char>) -> Option<(Seq<char>, Seq<Seq<char>>)> {
    match find_char(line, ':') {
        None => None,
        Some(c) => {
            let name = trim(line.take(c));
            if name.len() == 0 || !all_ident(name) {
                None
            } else {
                Some((name, split_args(trim(line.skip(c + 1)))))
            }
        },
    }
}

/// The name and arguments of a statement line `name: args`.
fn command_invocation_chars(line: &[char]) -> (r: Option<(Vec<char>, Vec<Vec<char>>)>)
    ensures
        r matches Some(p) ==> command_invocation(line@) == Some((p.0@, views(p.1@))),
        r is None ==> command_invocation(line@) is None,
{
    proof { lemma_find_char_facts(line@, ':'); }
    let n = line.len();
    let colon = match position_of(line, ':') {
        Some(c) => c,
        None => return None,
    };
    assert(colon < n);
    let head = copy_range(line, 0, colon);
    assert(head@ =~= line@.take(colon as int));
    let name = trimmed(head.as_slice());
    if name.len() == 0 {
        return None;
    }
    let mut j: usize = 0;
    while j < name.len()
        invariant
            j <= name@.len(),
            name@ == trim(line@.take(colon as int)),
            find_char(line@, ':') == Some(colon as int),
            forall|k: int| 0 <= k < j ==> is_ident(name@[k]),
        decreases name.len() - j,
    {
        if !is_ident_char(name[j]) {
            assert(!all_ident(name@));
            return None;
        }
        j = j + 1;
    }
    let tail = copy_range(line, colon + 1, n);
    assert(tail@ =~= line@.skip(colon + 1));
    let rest = trimmed(tail.as_slice());
    let args = split_args_chars(rest.as_slice());
    Some((name, args))
}

/// The name and arguments of a statement line `name: args`, if it is one.
pub fn parse_command_invocation(line: &str) -> (r: Option<(String, Vec<String>)>)
    ensures
        r matches Some(p) ==> command_invocation(line@) == Some((p.0@, strs(p.1@))),
        r is None ==> command_invocation(line@) is None,
{
    let s = chars_of(line);
    match command_invocation_chars(s.as_slice()) {
        Some((name, args)) => Some((string_of(name.as_slice()), strings_of(&args))),
        None => None,
    }
}

/// A syntax profile: the commands it defines, by name.
#[derive(Debug)]
pub struct SyntaxProfile {
    pub commands: NameMap<CommandDef>,
}

impl SyntaxProfile {
    /// The commands by name.
    pub open spec fn view(&self) -> Map<Seq<char>, CommandDef> {
        self.commands@
    }

    /// Every command's parameters have non-empty names.
    pub open spec fn params_named(&self) -> bool {
        forall|k: Seq<char>| #[trigger] self.commands@.contains_key(k) ==> params_named(
            self.commands@[k].params_view(),
        )
    }

    /// A profile with no commands.
    pub fn new() -> (p: Self)
        ensures
            p.commands.pairs() == Seq::<(Seq<char>, CommandDef)>::empty(),
            p@ == Map::<Seq<char>, CommandDef>::empty(),
    {
        SyntaxProfile { commands: NameMap::new() }
    }

    /// Whether every command's parameters have non-empty names.
    pub fn all_params_named(&self) -> (r: bool)
        ensures
            r == self.params_named(),
    {
        let n = self.commands.len();
        let mut i: usize = 0;
        while i < n
            invariant
                i <= n,
                n == self.commands.pairs().len(),
                forall|j: int| 0 <= j < i ==> params_named(
                    self.commands@[#[trigger] self.commands.pairs()[j].0].params_view(),
                ),
            decreases n - i,
        {
            let def = self.commands.value_at(i);
            let mut k: usize = 0;
            while k < def.params.len()
                invariant
                    k <= def.params@.len(),
                    i < n,
                    n == self.commands.pairs().len(),
                    self.commands@.contains_key(self.commands.pairs()[i as int].0),
                    *def == self.commands@[self.commands.pairs()[i as int].0],
                    forall|q: int| 0 <= q < k ==> #[trigger] def.params_view()[q].len() > 0,
                decreases def.params.len() - k,
            {
                if def.params[k].as_str().is_empty() {
                    assert(def.params_view()[k as int].len() == 0);
                    assert(!params_named(def.params_view()));
                    assert(self.commands@.contains_key(self.commands.pairs()[i as int].0));
                    return false;
                }
                k = k + 1;
            }
            i = i + 1;
        }
        proof {
            crate::name_map::lemma_names_dom(&self.commands);
            assert forall|key: Seq<char>| #[trigger] self.commands@.contains_key(key) implies params_named(
                self.commands@[key].params_view(),
            ) by {
                assert(self.commands.names().contains(key));
                let j = choose|j: int| 0 <= j < self.commands.names().len() && self.commands.names()[j] == key;
                assert(self.commands.pairs()[j].0 == key);
            }
        }
        true
    }
}

impl Default for SyntaxProfile {
    fn default() -> (p: Self)
        ensures
            p.commands.pairs() == Seq::<(Seq<char>, CommandDef)>::empty(),
            p@ == Map::<Seq<char>, CommandDef>::empty(),
    {
        SyntaxProfile::new()
    }
}

/// What a source line becomes when statement commands are expanded: the
/// body of the statement command it invokes, or the line itself.
pub open spec fn expand_line(line: Seq<char>, cmds: Map<Seq<char>, CommandDef>) -> Seq<Seq<char>> {
    match command_invocation(trim(line)) {
        Some((name, args)) => if cmds.contains_key(name) && !is_expression_spec(
            cmds[name].body_view(),
        ) {
            expand_command_spec(cmds[name].params_view(), cmds[name].body_view(), args)
        } else {
            seq![line]
        },
        None => seq![line],
    }
}

/// Every line expanded, in order.
pub open spec fn expand_lines(lines: Seq<Seq<char>>, cmds: Map<Seq<char>, CommandDef>) -> Seq<
    Seq<char>,
>
    decreases lines.len(),
{
    if lines.len() == 0 {
        seq![]
    } else {
        expand_lines(lines.drop_last(), cmds) + expand_line(lines.last(), cmds)
    }
}

/// Expands the statement commands of `lines`: each line that invokes a
/// statement command of the profile becomes the command's body with the
/// arguments put in; every other line stays as it is.
pub fn expand_commands(lines: &[String], profile: &SyntaxProfile) -> (r: Vec<String>)
    requires
        profile.params_named(),
    ensures
        strs(r@) == expand_lines(strs(lines@), profile@),
{
    let mut out: Vec<String> = Vec::new();
    for i in 0..lines.len()
        invariant
            profile.params_named(),
            strs(out@) == expand_lines(strs(lines@).take(i as int), profile@),
    {
        let ghost before = strs(lines@).take(i as int);
        let ghost after = strs(lines@).take(i + 1);
        assert(after.drop_last() =~= before);
        assert(after.last() == lines@[i as int]@);
        let raw = chars_of(lines[i].as_str());
        let t = trimmed(raw.as_slice());
        let mut more: Vec<String> = Vec::new();
        let mut expanded = false;
        match command_invocation_chars(t.as_slice()) {
            Some((name, args)) => {
                let key = string_of(name.as_slice());
                match profile.commands.get(key.as_str()) {
                    Some(def) => {
                        if !is_expression_command(def) {
                            assert(params_named(profile@[key@].params_view()));
                            let a = strings_of(&args);
                            more = expand_command(def, &a);
                            expanded = true;
                        }
                    },
                    None => {},
                }
            },
            None => {},
        }
        if !expanded {
            more.push(lines[i].clone());
            assert(strs(more@) =~= seq![lines@[i as int]@]);
        }
        assert(strs(more@) == expand_line(lines@[i as int]@, profile@));
        let ghost prev = out@;
        let ghost m = more@;
        out.append(&mut more);
        assert(strs(out@) =~= strs(prev) + strs(m));
    }
    assert(strs(lines@).take(lines@.len() as int) =~= strs(lines@));
    out
}

/// The first position at or after `i` that is not ASCII white space.
pub open spec fn skip_ascii_space(s: Seq<char>, i: int) -> int
    decreases s.len() - i,
{
    if 0 <= i < s.len() && is_ascii_space(s[i]) {
        skip_ascii_space(s, i + 1)
    } else {
        i
    }
}

/// Skips ASCII white space from `i`.
fn skip_ascii_space_exec(s: &[char], i: usize) -> (r: usize)
    requires
        i <= s@.len(),
    ensures
        r == skip_ascii_space(s@, i as int),
        i <= r <= s@.len(),
{
    let n = s.len();
    let mut j = i;
    while j < n && ascii_space(s[j])
        invariant
            i <= j <= n,
            n == s@.len(),
            skip_ascii_space(s@, i as int) == skip_ascii_space(s@, j as int),
        decreases n - j,
    {
        j = j + 1;
    }
    j
}

/// Where the scan of one argument of an expression command, started at
/// `i`, stops, and whether it stopped at a comma that leads to a further
/// argument. The last argument also ends at a closing bracket that has no
/// opening one in the argument, and at a top-level comma.
pub open spec fn scan_arg(
    s: Seq<char>,
    i: int,
    last: bool,
    dp: nat,
    db: nat,
    dk: nat,
    ins: bool,
    esc: bool,
) -> (int, bool)
    decreases s.len() - i,
{
    if i < 0 || i >= s.len() {
        (i, false)
    } else {
        let ch = s[i];
        if ins {
            if esc {
                scan_arg(s, i + 1, last, dp, db, dk, true, false)
            } else if ch == '\\' {
                scan_arg(s, i + 1, last, dp, db, dk, true, true)
            } else if ch == '"' {
                scan_arg(s, i + 1, last, dp, db, dk, false, false)
            } else {
                scan_arg(s, i + 1, last, dp, db, dk, true, false)
            }
        } else if ch == '"' {
            scan_arg(s, i + 1, last, dp, db, dk, true, esc)
        } else if ch == '(' {
            scan_arg(s, i + 1, last, dp + 1, db, dk, false, esc)
        } else if ch == ')' {
            if dp == 0 && last {
                (i, false)
            } else {
                scan_arg(s, i + 1, last, dec(dp), db, dk, false, esc)
            }
        } else if ch == '{' {
            scan_arg(s, i + 1, last, dp, db + 1, dk, false, esc)
        } else if ch == '}' {
            if db == 0 && last {
                (i, false)
            } else {
                scan_arg(s, i + 1, last, dp, dec(db), dk, false, esc)
            }
        } else if ch == '[' {
            scan_arg(s, i + 1, last, dp, db, dk + 1, false, esc)
        } else if ch == ']' {
            if dk == 0 && last {
                (i, false)
            } else {
                scan_arg(s, i + 1, last, dp, db, dec(dk), false, esc)
            }
        } else if ch == ',' && dp == 0 && db == 0 && dk == 0 {
            (i, !last)
        } else {
            scan_arg(s, i + 1, last, dp, db, dk, false, esc)
        }
    }
}

/// Where a scan stops lies between its start and the end of the text.
proof fn lemma_scan_arg_bounds(
    s: Seq<char>,
    i: int,
    last: bool,
    dp: nat,
    db: nat,
    dk: nat,
    ins: bool,
    esc: bool,
)
    requires
        0 <= i <= s.len(),
    ensures
        i <= scan_arg(s, i, last, dp, db, dk, ins, esc).0 <= s.len(),
        scan_arg(s, i, last, dp, db, dk, ins, esc).1 ==> scan_arg(s, i, last, dp, db, dk, ins, esc).0
            < s.len(),
    decreases s.len() - i,
{
    if i < s.len() {
        let ch = s[i];
        if ins {
            if esc {
                lemma_scan_arg_bounds(s, i + 1, last, dp, db, dk, true, false);
            } else if ch == '\\' {
                lemma_scan_arg_bounds(s, i + 1, last, dp, db, dk, true, true);
            } else if ch == '"' {
                lemma_scan_arg_bounds(s, i + 1, last, dp, db, dk, false, false);
            } else {
                lemma_scan_arg_bounds(s, i + 1, last, dp, db, dk, true, false);
            }
        } else if ch == '"' {
            lemma_scan_arg_bounds(s, i + 1, last, dp, db, dk, true, esc);
        } else if ch == '(' {
            lemma_scan_arg_bounds(s, i + 1, last, dp + 1, db, dk, false, esc);
        } else if ch == ')' {
            lemma_scan_arg_bounds(s, i + 1, last, dec(dp), db, dk, false, esc);
        } else if ch == '{' {
            lemma_scan_arg_bounds(s, i + 1, last, dp, db + 1, dk, false, esc);
        } else if ch == '}' {
            lemma_scan_arg_bounds(s, i + 1, last, dp, dec(db), dk, false, esc);
        } else if ch == '[' {
            lemma_scan_arg_bounds(s, i + 1, last, dp, db, dk + 1, false, esc);
        } else if ch == ']' {
            lemma_scan_arg_bounds(s, i + 1, last, dp, db, dec(dk), false, esc);
        } else {
            lemma_scan_arg_bounds(s, i + 1, last, dp, db, dk, false, esc);
        }
    }
}

/// Scans one argument of an expression command from `start`.
fn scan_arg_exec(s: &[char], start: usize, last: bool) -> (r: (usize, bool))
    requires
        start <= s@.len(),
    ensures
        (r.0 as int, r.1) == scan_arg(s@, start as int, last, 0, 0, 0, false, false),
        start <= r.0 <= s@.len(),
        r.1 ==> r.0 < s@.len(),
{
    proof { lemma_scan_arg_bounds(s@, start as int, last, 0, 0, 0, false, false); }
    let ghost target = scan_arg(s@, start as int, last, 0, 0, 0, false, false);
    let n = s.len();
    let mut dp: usize = 0;
    let mut db: usize = 0;
    let mut dk: usize = 0;
    let mut ins = false;
    let mut esc = false;
    let mut i = start;
    while i < n
        invariant
            start <= i <= n,
            n == s@.len(),
            dp <= i,
            db <= i,
            dk <= i,
            target == scan_arg(s@, start as int, last, 0, 0, 0, false, false),
            target == scan_arg(s@, i as int, last, dp as nat, db as nat, dk as nat, ins, esc),
        decreases n - i,
    {
        let ch = s[i];
        if ins {
            if esc {
                esc = false;
            } else if ch == '\\' {
                esc = true;
            } else if ch == '"' {
                ins = false;
            }
        } else if ch == '"' {
            ins = true;
        } else if ch == '(' {
            dp = dp + 1;
        } else if ch == ')' {
            if dp == 0 && last {
                assert(target == (i as int, false));
                return (i, false);
            }
            dp = if dp > 0 { dp - 1 } else { 0 };
        } else if ch == '{' {
            db = db + 1;
        } else if ch == '}' {
            if db == 0 && last {
                assert(target == (i as int, false));
                return (i, false);
            }
            db = if db > 0 { db - 1 } else { 0 };
        } else if ch == '[' {
            dk = dk + 1;
        } else if ch == ']' {
            if dk == 0 && last {
                assert(target == (i as int, false));
                return (i, false);
            }
            dk = if dk > 0 { dk - 1 } else { 0 };
        } else if ch == ',' && dp == 0 && db == 0 && dk == 0 {
            assert(target == (i as int, !last));
            return (i, !last);
        }
        i = i + 1;
    }
    (i, false)
}

/// The arguments of an expression command from the `k`-th on, read from
/// position `i`: where the reading ends and the arguments, or `None` when
/// an argument is blank or missing.
pub open spec fn parse_args_from(s: Seq<char>, i: int, arity: nat, k: nat) -> Option<
    (int, Seq<Seq<char>>),
>
    decreases arity - k,
{
    if k >= arity {
        Some((i, seq![]))
    } else {
        let last = k + 1 == arity;
        let (stop, sep) = scan_arg(s, i, last, 0, 0, 0, false, false);
        let arg = trim(s.subrange(i, stop));
        if arg.len() == 0 {
            None
        } else {
            let next = if sep {
                skip_ascii_space(s, stop + 1)
            } else {
                stop
            };
            match parse_args_from(s, next, arity, k + 1) {
                Some((end, rest)) => Some((end, seq![arg] + rest)),
                None => None,
            }
        }
    }
}

/// The `arity` arguments of an expression command whose colon ends just
/// before `idx`: where they end and what they are.
pub open spec fn invocation_args(s: Seq<char>, idx: int, arity: nat) -> Option<
    (int, Seq<Seq<char>>),
> {
    parse_args_from(s, skip_ascii_space(s, idx), arity, 0)
}

/// The skip of white space stays within the text.
proof fn lemma_skip_bounds(s: Seq<char>, i: int)
    requires
        0 <= i <= s.len(),
    ensures
        i <= skip_ascii_space(s, i) <= s.len(),
    decreases s.len() - i,
{
    if i < s.len() && is_ascii_space(s[i]) {
        lemma_skip_bounds(s, i + 1);
    }
}

/// Reading arguments ends between where it starts and the end of the text.
proof fn lemma_parse_args_end(s: Seq<char>, i: int, arity: nat, k: nat)
    requires
        0 <= i <= s.len(),
    ensures
        parse_args_from(s, i, arity, k) matches Some((end, _)) ==> i <= end <= s.len(),
    decreases arity - k,
{
    if k < arity {
        let last = k + 1 == arity;
        lemma_scan_arg_bounds(s, i, last, 0, 0, 0, false, false);
        let (stop, sep) = scan_arg(s, i, last, 0, 0, 0, false, false);
        if sep {
            lemma_skip_bounds(s, stop + 1);
            lemma_parse_args_end(s, skip_ascii_space(s, stop + 1), arity, k + 1);
        } else {
            lemma_parse_args_end(s, stop, arity, k + 1);
        }
    }
}

/// The arguments of an invocation end at or after where they are read from.
proof fn lemma_invocation_end(s: Seq<char>, idx: int, arity: nat)
    requires
        0 <= idx <= s.len(),
    ensures
        invocation_args(s, idx, arity) matches Some((end, _)) ==> idx <= end <= s.len(),
{
    lemma_skip_bounds(s, idx);
    lemma_parse_args_end(s, skip_ascii_space(s, idx), arity, 0);
}

/// Reads the arguments of an expression command.
fn invocation_args_chars(s: &[char], idx: usize, arity: usize) -> (r: Option<(usize, Vec<Vec<char>>)>)
    requires
        idx <= s@.len(),
    ensures
        r matches Some(p) ==> invocation_args(s@, idx as int, arity as nat) == Some((p.0 as int, views(p.1@))),
        r is None ==> invocation_args(s@, idx as int, arity as nat) is None,
        r matches Some(p) ==> p.0 <= s@.len(),
{
    let ghost target = invocation_args(s@, idx as int, arity as nat);
    let n = s.len();
    let mut i = skip_ascii_space_exec(s, idx);
    let mut args: Vec<Vec<char>> = Vec::new();
    let mut k: usize = 0;
    while k < arity
        invariant
            k <= arity,
            i <= s@.len(),
            n == s@.len(),
            target == invocation_args(s@, idx as int, arity as nat),
            views(args@).len() == k,
            target == match parse_args_from(s@, i as int, arity as nat, k as nat) {
                Some((end, rest)) => Some((end, views(args@) + rest)),
                None => None,
            },
        decreases arity - k,
    {
        let last = k + 1 == arity;
        let (stop, sep) = scan_arg_exec(s, i, last);
        let piece = copy_range(s, i, stop);
        let arg = trimmed(piece.as_slice());
        assert(arg@ == trim(s@.subrange(i as int, stop as int)));
        if arg.len() == 0 {
            assert(parse_args_from(s@, i as int, arity as nat, k as nat) is None);
            return None;
        }
        let next = if sep {
            skip_ascii_space_exec(s, stop + 1)
        } else {
            stop
        };
        proof {
            let rest = parse_args_from(s@, next as int, arity as nat, (k + 1) as nat);
            match rest {
                Some((end, more)) => {
                    assert(views(args@.push(arg)) =~= views(args@).push(arg@));
                    assert(views(args@) + (seq![arg@] + more) =~= views(args@).push(arg@) + more);
                },
                None => {},
            }
        }
        args.push(arg);
        i = next;
        k = k + 1;
    }
    assert(views(args@) + Seq::<Seq<char>>::empty() =~= views(args@));
    Some((i, args))
}

/// The first invocation of the expression command `name` in `s` from
/// position `i` on, outside string literals: where it starts, where its
/// arguments end, and the arguments; `None` if there is none, or if the
/// first one that is followed by a colon has a blank or missing argument.
pub open spec fn find_invocation_from(
    s: Seq<char>,
    name: Seq<char>,
    arity: nat,
    i: int,
    ins: bool,
    esc: bool,
) -> Option<(int, int, Seq<Seq<char>>)>
    decreases s.len() - i,
{
    if i < 0 || i >= s.len() {
        None
    } else {
        let ch = s[i];
        if ins {
            if esc {
                find_invocation_from(s, name, arity, i + 1, true, false)
            } else if ch == '\\' {
                find_invocation_from(s, name, arity, i + 1, true, true)
            } else if ch == '"' {
                find_invocation_from(s, name, arity, i + 1, false, false)
            } else {
                find_invocation_from(s, name, arity, i + 1, true, false)
            }
        } else if ch == '"' {
            find_invocation_from(s, name, arity, i + 1, true, esc)
        } else if word_at(s, name, i) {
            let colon = skip_ascii_space(s, i + name.len());
            if colon >= s.len() || s[colon] != ':' {
                find_invocation_from(s, name, arity, i + 1, false, esc)
            } else {
                match invocation_args(s, colon + 1, arity) {
                    Some((end, args)) => Some((i, end, args)),
                    None => None,
                }
            }
        } else {
            find_invocation_from(s, name, arity, i + 1, false, esc)
        }
    }
}

/// The first invocation of the expression command `name` in `s`.
pub open spec fn find_invocation(s: Seq<char>, name: Seq<char>, arity: nat) -> Option<
    (int, int, Seq<Seq<char>>),
> {
    find_invocation_from(s, name, arity, 0, false, false)
}

/// Finds the first invocation of the expression command `name` in `s`.
fn find_invocation_chars(s: &[char], name: &[char], arity: usize) -> (r: Option<
    (usize, usize, Vec<Vec<char>>),
>)
    ensures
        r matches Some(p) ==> find_invocation(s@, name@, arity as nat) == Some(
            (p.0 as int, p.1 as int, views(p.2@)),
        ),
        r is None ==> find_invocation(s@, name@, arity as nat) is None,
        r matches Some(p) ==> p.0 < p.1 <= s@.len(),
{
    let ghost target = find_invocation(s@, name@, arity as nat);
    let n = s.len();
    let mut i: usize = 0;
    let mut ins = false;
    let mut esc = false;
    while i < n
        invariant
            i <= n,
            n == s@.len(),
            target == find_invocation(s@, name@, arity as nat),
            target == find_invocation_from(s@, name@, arity as nat, i as int, ins, esc),
        decreases n - i,
    {
        let ch = s[i];
        if ins {
            if esc {
                esc = false;
            } else if ch == '\\' {
                esc = true;
            } else if ch == '"' {
                ins = false;
            }
            i = i + 1;
        } else if ch == '"' {
            ins = true;
            i = i + 1;
        } else if word_at_exec(s, name, i) {
            let colon = skip_ascii_space_exec(s, i + name.len());
            if colon >= n || s[colon] != ':' {
                i = i + 1;
            } else {
                match invocation_args_chars(s, colon + 1, arity) {
                    Some((end, args)) => {
                        proof { lemma_invocation_end(s@, colon + 1, arity as nat); }
                        assert(word_at(s@, name@, i as int));
                        assert(colon == skip_ascii_space(s@, i + name@.len()));
                        assert(invocation_args(s@, colon + 1, arity as nat) == Some((end as int, views(args@))));
                        assert(target == Some((i as int, end as int, views(args@))));
                        return Some((i, end, args));
                    },
                    None => {
                        assert(target is None);
                        return None;
                    },
                }
            }
        } else {
            i = i + 1;
        }
    }
    None
}

/// The arguments of an expression command read from char position `idx` of
/// `line`: where they end and what they are, or `None` when one is blank or
/// missing.
pub fn parse_expression_invocation_args(line: &str, idx: usize, arity: usize) -> (r: Option<
    (usize, Vec<String>),
>)
    requires
        idx <= line@.len(),
    ensures
        r matches Some(p) ==> invocation_args(line@, idx as int, arity as nat) == Some(
            (p.0 as int, strs(p.1@)),
        ),
        r is None ==> invocation_args(line@, idx as int, arity as nat) is None,
{
    let s = chars_of(line);
    match invocation_args_chars(s.as_slice(), idx, arity) {
        Some((end, args)) => Some((end, strings_of(&args))),
        None => None,
    }
}

/// The first invocation of the expression command `name` in `line`: its
/// start, the end of its arguments, and the arguments.
pub fn find_expression_invocation(line: &str, name: &str, arity: usize) -> (r: Option<
    (usize, usize, Vec<String>),
>)
    ensures
        r matches Some(p) ==> find_invocation(line@, name@, arity as nat) == Some(
            (p.0 as int, p.1 as int, strs(p.2@)),
        ),
        r is None ==> find_invocation(line@, name@, arity as nat) is None,
{
    let s = chars_of(line);
    let w = chars_of(name);
    match find_invocation_chars(s.as_slice(), w.as_slice(), arity) {
        Some((start, end, args)) => Some((start, end, strings_of(&args))),
        None => None,
    }
}

/// The invocation of the expression command `def`, named `name`, that is
/// first in `line`: its start, the end of its arguments, and the
/// parenthesised expression that replaces it.
pub open spec fn candidate(name: Seq<char>, def: CommandDef, line: Seq<char>) -> Option<
    (int, int, Seq<char>),
> {
    if !is_expression_spec(def.body_view()) {
        None
    } else {
        match find_invocation(line, name, def.params@.len()) {
            None => None,
            Some((start, end, args)) => match expression_template_spec(
                def.params_view(),
                def.body_view(),
                args,
            ) {
                None => None,
                Some(e) => Some((start, end, seq!['('] + e + seq![')'])),
            },
        }
    }
}

/// Of the commands `cmds`, taken in order, the invocation that starts
/// first in `line`; of two that start at the same place, the earlier command's.
pub open spec fn best_candidate(cmds: Seq<(Seq<char>, CommandDef)>, line: Seq<char>) -> Option<
    (int, int, Seq<char>),
>
    decreases cmds.len(),
{
    if cmds.len() == 0 {
        None
    } else {
        let prev = best_candidate(cmds.drop_last(), line);
        match candidate(cmds.last().0, cmds.last().1, line) {
            None => prev,
            Some(c) => match prev {
                Some(b) => if b.0 <= c.0 {
                    prev
                } else {
                    Some(c)
                },
                None => Some(c),
            },
        }
    }
}

/// `line` with its first expression-command invocation replaced, if it has one.
pub open spec fn expand_once_spec(line: Seq<char>, cmds: Seq<(Seq<char>, CommandDef)>) -> Option<
    Seq<char>,
> {
    match best_candidate(cmds, line) {
        None => None,
        Some((start, end, rep)) => Some(line.take(start) + rep + line.skip(end)),
    }
}

/// The invocation of the expression command `def` that is first in `line`.
fn candidate_chars(name: &[char], def: &CommandDef, line: &[char]) -> (r: Option<
    (usize, usize, Vec<char>),
>)
    requires
        params_named(def.params_view()),
    ensures
        r matches Some(c) ==> candidate(name@, *def, line@) == Some(
            (c.0 as int, c.1 as int, c.2@),
        ),
        r is None ==> candidate(name@, *def, line@) is None,
        r matches Some(c) ==> c.0 <= c.1 <= line@.len(),
{
    if !is_expression_command(def) {
        return None;
    }
    match find_invocation_chars(line, name, def.params.len()) {
        None => None,
        Some((start, end, args)) => {
            let a = strings_of(&args);
            match expression_template_chars(def, &a) {
                None => None,
                Some(e) => {
                    let mut rep: Vec<char> = Vec::new();
                    rep.push('(');
                    append_chars(&mut rep, e.as_slice());
                    rep.push(')');
                    assert(rep@ =~= seq!['('] + e@ + seq![')']);
                    Some((start, end, rep))
                },
            }
        },
    }
}

/// Replaces the first expression-command invocation in `line`.
fn expand_once_chars(line: &[char], profile: &SyntaxProfile) -> (r: Option<Vec<char>>)
    requires
        profile.params_named(),
    ensures
        r matches Some(t) ==> expand_once_spec(line@, profile.commands.pairs()) == Some(t@),
        r is None ==> expand_once_spec(line@, profile.commands.pairs()) is None,
{
    let ghost cmds = profile.commands.pairs();
    let n = profile.commands.len();
    let mut best: Option<(usize, usize, Vec<char>)> = None;
    let mut i: usize = 0;
    while i < n
        invariant
            i <= n,
            n == cmds.len(),
            cmds == profile.commands.pairs(),
            profile.params_named(),
            best matches Some(b) ==> b.0 <= b.1 <= line@.len(),
            best matches Some(b) ==> best_candidate(cmds.take(i as int), line@) == Some(
                (b.0 as int, b.1 as int, b.2@),
            ),
            best is None ==> best_candidate(cmds.take(i as int), line@) is None,
        decreases n - i,
    {
        let name = profile.commands.name_at(i);
        let def = profile.commands.value_at(i);
        assert(params_named(profile@[cmds[i as int].0].params_view()));
        let w = chars_of(name.as_str());
        let c = candidate_chars(w.as_slice(), def, line);
        let ghost t = cmds.take(i + 1);
        assert(t.drop_last() =~= cmds.take(i as int));
        assert(t.last() == cmds[i as int]);
        match c {
            None => {},
            Some(cand) => {
                let replace = match &best {
                    Some(b) => cand.0 < b.0,
                    None => true,
                };
                if replace {
                    best = Some(cand);
                }
            },
        }
        i = i + 1;
    }
    assert(cmds.take(n as int) =~= cmds);
    match best {
        None => None,
        Some((start, end, rep)) => {
            let mut out = copy_range(line, 0, start);
            append_chars(&mut out, rep.as_slice());
            let tail = copy_range(line, end, line.len());
            append_chars(&mut out, tail.as_slice());
            assert(line@.subrange(0, start as int) =~= line@.take(start as int));
            assert(line@.subrange(end as int, line@.len() as int) =~= line@.skip(end as int));
            Some(out)
        },
    }
}

/// Replaces the expression-command invocation that starts first in `line`
/// by its parenthesised expression; `None` if there is none.
pub fn expand_expression_commands_once(line: &str, profile: &SyntaxProfile) -> (r: Option<String>)
    requires
        profile.params_named(),
    ensures
        r matches Some(t) ==> expand_once_spec(line@, profile.commands.pairs()) == Some(t@),
        r is None ==> expand_once_spec(line@, profile.commands.pairs()) is None,
{
    let s = chars_of(line);
    match expand_once_chars(s.as_slice(), profile) {
        Some(t) => Some(string_of(t.as_slice())),
        None => None,
    }
}

/// How many rounds of expression expansion a line gets at most.
pub const EXPANSION_ROUNDS: usize = 32;

/// `line` after at most `fuel` rounds of expression expansion, stopping
/// early when a round finds nothing to expand or changes nothing.
pub open spec fn expand_rounds(line: Seq<char>, cmds: Seq<(Seq<char>, CommandDef)>, fuel: nat) -> Seq<
    char,
>
    decreases fuel,
{
    if fuel == 0 {
        line
    } else {
        match expand_once_spec(line, cmds) {
            None => line,
            Some(next) => if next == line {
                line
            } else {
                expand_rounds(next, cmds, (fuel - 1) as nat)
            },
        }
    }
}

/// A line with its expression commands expanded.
pub open spec fn expand_in_line_spec(line: Seq<char>, cmds: Seq<(Seq<char>, CommandDef)>) -> Seq<
    char,
> {
    expand_rounds(line, cmds, EXPANSION_ROUNDS as nat)
}

/// Whether two character vectors are equal.
fn same_chars(a: &[char], b: &[char]) -> (r: bool)
    ensures
        r == (a@ == b@),
{
    if a.len() != b.len() {
        return false;
    }
    let mut i: usize = 0;
    while i < a.len()
        invariant
            i <= a@.len(),
            a@.len() == b@.len(),
            forall|j: int| 0 <= j < i ==> a@[j] == b@[j],
        decreases a.len() - i,
    {
        if a[i] != b[i] {
            return false;
        }
        i = i + 1;
    }
    assert(a@ =~= b@);
    true
}

/// Expands the expression commands of one line.
fn expand_in_line_chars(line: Vec<char>, profile: &SyntaxProfile) -> (r: Vec<char>)
    requires
        profile.params_named(),
    ensures
        r@ == expand_in_line_spec(line@, profile.commands.pairs()),
{
    let ghost cmds = profile.commands.pairs();
    let mut current = line;
    let mut round: usize = 0;
    while round < EXPANSION_ROUNDS
        invariant
            round <= EXPANSION_ROUNDS,
            profile.params_named(),
            cmds == profile.commands.pairs(),
            expand_in_line_spec(line@, cmds) == expand_rounds(
                current@,
                cmds,
                (EXPANSION_ROUNDS - round) as nat,
            ),
        decreases EXPANSION_ROUNDS - round,
    {
        match expand_once_chars(current.as_slice(), profile) {
            None => {
                return current;
            },
            Some(next) => {
                if same_chars(next.as_slice(), current.as_slice()) {
                    return current;
                }
                current = next;
            },
        }
        round = round + 1;
    }
    current
}

/// Expands the expression commands of `line`: round after round, the
/// invocation that starts first is replaced by its parenthesised
/// expression, until nothing is left to expand, a round changes nothing,
/// or 32 rounds have run.
pub fn expand_expression_commands_in_line(line: &str, profile: &SyntaxProfile) -> (r: String)
    requires
        profile.params_named(),
    ensures
        r@ == expand_in_line_spec(line@, profile.commands.pairs()),
{
    let s = chars_of(line);
    let t = expand_in_line_chars(s, profile);
    string_of(t.as_slice())
}

/// Appends the characters of `t` to `v`.
fn append_str(v: &mut Vec<char>, t: &str)
    ensures
        final(v)@ == old(v)@ + t@,
{
    let tv = chars_of(t);
    append_chars(v, tv.as_slice());
}

/// `head` and `tail` of a comma-separated pair, trimmed, joined by `sep`
/// after `lead`; `None` without a comma.
pub open spec fn lower_pair(rest: Seq<char>, lead: Seq<char>) -> Option<Seq<char>> {
    match find_char(rest, ',') {
        Some(c) => Some(lead + trim(rest.take(c)) + ": "@ + trim(rest.skip(c + 1))),
        None => None,
    }
}

/// A low-level line lowered to the language's own statement:
/// `ll.print e` to `say: e`, `ll.mov n, e` to `n: e`, `ll.var n, e` to
/// `var n: e`, `ll.call f, args` to `f: args` and `ll.raw text` to the
/// text; any other line, or a pair form without its comma, stays as it is.
pub open spec fn lower_line(raw: Seq<char>) -> Seq<char> {
    let t = trim(raw);
    match strip_either(t, "ll.print "@, "ll.print:"@) {
        Some(e) => "say: "@ + trim(e),
        None => match strip_either(t, "ll.mov "@, "ll.mov:"@) {
            Some(rest) => match lower_pair(rest, seq![]) {
                Some(l) => l,
                None => raw,
            },
            None => match strip_either(t, "ll.var "@, "ll.var:"@) {
                Some(rest) => match lower_pair(rest, "var "@) {
                    Some(l) => l,
                    None => raw,
                },
                None => match strip_either(t, "ll.call "@, "ll.call:"@) {
                    Some(rest) => match lower_pair(rest, seq![]) {
                        Some(l) => l,
                        None => raw,
                    },
                    None => match strip_either(t, "ll.raw "@, "ll.raw:"@) {
                        Some(rest) => trim(rest),
                        None => raw,
                    },
                },
            },
        },
    }
}

/// The lowering of a comma-separated pair.
fn lower_pair_chars(rest: &[char], lead: &str) -> (r: Option<Vec<char>>)
    ensures
        r matches Some(l) ==> lower_pair(rest@, lead@) == Some(l@),
        r is None ==> lower_pair(rest@, lead@) is None,
{
    proof { lemma_find_char_facts(rest@, ','); }
    let n = rest.len();
    match position_of(rest, ',') {
        None => None,
        Some(c) => {
            let head = copy_range(rest, 0, c);
            let tail = copy_range(rest, c + 1, n);
            assert(head@ =~= rest@.take(c as int));
            assert(tail@ =~= rest@.skip(c + 1));
            let mut out: Vec<char> = Vec::new();
            append_str(&mut out, lead);
            let h = trimmed(head.as_slice());
            append_chars(&mut out, h.as_slice());
            append_str(&mut out, ": ");
            let t = trimmed(tail.as_slice());
            append_chars(&mut out, t.as_slice());
            Some(out)
        },
    }
}

/// Lowers one low-level line.
fn lower_line_chars(raw: &[char]) -> (r: Vec<char>)
    ensures
        r@ == lower_line(raw@),
{
    let t = trimmed(raw);
    if let Some(e) = strip_either_chars(t.as_slice(), "ll.print ", "ll.print:") {
        let mut out: Vec<char> = Vec::new();
        append_str(&mut out, "say: ");
        let te = trimmed(e.as_slice());
        append_chars(&mut out, te.as_slice());
        return out;
    }
    if let Some(rest) = strip_either_chars(t.as_slice(), "ll.mov ", "ll.mov:") {
        return match lower_pair_chars(rest.as_slice(), "") {
            Some(l) => {
                proof { reveal_strlit(""); }
                assert(""@ =~= Seq::<char>::empty());
                l
            },
            None => copy_range(raw, 0, raw.len()),
        };
    }
    if let Some(rest) = strip_either_chars(t.as_slice(), "ll.var ", "ll.var:") {
        return match lower_pair_chars(rest.as_slice(), "var ") {
            Some(l) => l,
            None => copy_range(raw, 0, raw.len()),
        };
    }
    if let Some(rest) = strip_either_chars(t.as_slice(), "ll.call ", "ll.call:") {
        return match lower_pair_chars(rest.as_slice(), "") {
            Some(l) => {
                proof { reveal_strlit(""); }
                assert(""@ =~= Seq::<char>::empty());
                l
            },
            None => copy_range(raw, 0, raw.len()),
        };
    }
    if let Some(rest) = strip_either_chars(t.as_slice(), "ll.raw ", "ll.raw:") {
        return trimmed(rest.as_slice());
    }
    assert(raw@.subrange(0, raw@.len() as int) =~= raw@);
    copy_range(raw, 0, raw.len())
}

/// The lowering of a whole text: each of its lines lowered, joined with
/// line feeds.
pub open spec fn lower_spec(source: Seq<char>) -> Seq<char> {
    join_lines(lines_of(source).map_values(|l: Seq<char>| lower_line(l)))
}

/// Lowers every low-level line of `source`.
fn lower_chars(source: &[char]) -> (r: Vec<char>)
    ensures
        r@ == lower_spec(source@),
{
    let lines = split_lines(source);
    let mut out: Vec<Vec<char>> = Vec::new();
    for i in 0..lines.len()
        invariant
            views(lines@) == lines_of(source@),
            views(out@) == views(lines@).take(i as int).map_values(|l: Seq<char>| lower_line(l)),
    {
        let l = lower_line_chars(lines[i].as_slice());
        let ghost prev = out@;
        out.push(l);
        assert(views(out@) =~= views(prev).push(l@));
        assert(views(lines@).take(i + 1).map_values(|l: Seq<char>| lower_line(l)) =~= views(lines@).take(
            i as int,
        ).map_values(|l: Seq<char>| lower_line(l)).push(lower_line(lines@[i as int]@)));
    }
    assert(views(lines@).take(lines@.len() as int) =~= views(lines@));
    join_with_newlines(out.as_slice())
}

/// Lowers the low-level forms of `source` line by line: `ll.print e`
/// becomes `say: e`, `ll.mov n, e` becomes `n: e`, `ll.var n, e` becomes
/// `var n: e`, `ll.call f, args` becomes `f: args`, and `ll.raw text`
/// becomes the text; the lines are joined with line feeds.
pub fn lower_low_level(source: &str) -> (r: String)
    ensures
        r@ == lower_spec(source@),
{
    let s = chars_of(source);
    let t = lower_chars(s.as_slice());
    string_of(t.as_slice())
}

/// A command's parameter names and body lines.
pub open spec fn def_view(d: CommandDef) -> (Seq<Seq<char>>, Seq<Seq<char>>) {
    (d.params_view(), d.body_view())
}

/// The commands of a profile in entry order, each with its parameters and body.
pub open spec fn command_views(s: Seq<(Seq<char>, CommandDef)>) -> Seq<
    (Seq<char>, (Seq<Seq<char>>, Seq<Seq<char>>)),
> {
    s.map_values(|e: (Seq<char>, CommandDef)| (e.0, def_view(e.1)))
}

/// Storing a command commutes with taking the views of the entries.
proof fn lemma_command_views_insert(s: Seq<(Seq<char>, CommandDef)>, k: Seq<char>, d: CommandDef)
    ensures
        command_views(insert_entry(s, k, d)) == insert_entry(command_views(s), k, def_view(d)),
{
    let cv = command_views(s);
    assert(has_name(s, k) == has_name(cv, k)) by {
        if has_name(s, k) {
            let i = choose|i: int| 0 <= i < s.len() && #[trigger] s[i].0 == k;
            assert(cv[i].0 == k);
        }
        if has_name(cv, k) {
            let i = choose|i: int| 0 <= i < cv.len() && #[trigger] cv[i].0 == k;
            assert(s[i].0 == k);
        }
    }
    assert(command_views(insert_entry(s, k, d)) =~= insert_entry(cv, k, def_view(d)));
}

/// A line of a profile that carries no command: blank, a comment, the
/// `fforge-main {` opener or a closing brace.
pub open spec fn skippable(line: Seq<char>) -> bool {
    line.len() == 0 || starts_with(line, "//"@) || starts_with(line, "#"@) || line == "fforge-main {"@
        || line == "}"@
}

/// The header of a command, `command name(params) {`: the command's name and
/// parameter names, or the error for a malformed header.
pub open spec fn parse_header(line: Seq<char>) -> Result<(Seq<char>, Seq<Seq<char>>), Seq<char>> {
    if !starts_with(line, "command "@) {
        Err("Invalid syntax.ff line: "@ + line)
    } else {
        let header = line.skip("command "@.len() as int);
        match find_char(header, '(') {
            None => Err("Expected '(' in command header: "@ + line),
            Some(op) => match find_char(header.skip(op + 1), ')') {
                None => Err("Expected ')' in command header: "@ + line),
                Some(c0) => {
                    let cp = op + 1 + c0;
                    let name = trim(header.take(op));
                    let ps = trim(header.subrange(op + 1, cp));
                    let after = trim(header.skip(cp + 1));
                    if after != "{"@ {
                        Err("Expected '{' in command header: "@ + line)
                    } else if ps.len() == 0 {
                        Ok((name, seq![]))
                    } else {
                        Ok((name, split_on(ps, ',').map_values(|p: Seq<char>| trim(p))))
                    }
                },
            },
        }
    }
}

/// The body of a command from line `j` on: its non-blank lines, trimmed, up
/// to the first line that is `}` alone, and the line after that one (or
/// the end of the text).
pub open spec fn body_from(ls: Seq<Seq<char>>, j: int, acc: Seq<Seq<char>>) -> (Seq<Seq<char>>, int)
    decreases ls.len() - j,
{
    if j < 0 || j >= ls.len() {
        (acc, j)
    } else {
        let bl = trim(ls[j]);
        if bl == "}"@ {
            (acc, j + 1)
        } else if bl.len() == 0 {
            body_from(ls, j + 1, acc)
        } else {
            body_from(ls, j + 1, acc.push(bl))
        }
    }
}

/// Reading a body moves forward.
pub proof fn lemma_body_from_bounds(ls: Seq<Seq<char>>, j: int, acc: Seq<Seq<char>>)
    requires
        0 <= j <= ls.len(),
    ensures
        j <= body_from(ls, j, acc).1 <= ls.len(),
    decreases ls.len() - j,
{
    if j < ls.len() {
        let bl = trim(ls[j]);
        if bl == "}"@ {
        } else if bl.len() == 0 {
            lemma_body_from_bounds(ls, j + 1, acc);
        } else {
            lemma_body_from_bounds(ls, j + 1, acc.push(bl));
        }
    }
}

/// The commands of a profile read from line `i` on, added to `acc`, or the
/// error of the first malformed line.
pub open spec fn parse_lines_from(
    ls: Seq<Seq<char>>,
    i: int,
    acc: Seq<(Seq<char>, (Seq<Seq<char>>, Seq<Seq<char>>))>,
) -> Result<Seq<(Seq<char>, (Seq<Seq<char>>, Seq<Seq<char>>))>, Seq<char>>
    decreases ls.len() - i,
{
    if i < 0 || i >= ls.len() {
        Ok(acc)
    } else {
        let line = trim(ls[i]);
        if skippable(line) {
            parse_lines_from(ls, i + 1, acc)
        } else {
            match parse_header(line) {
                Err(e) => Err(e),
                Ok((name, params)) => {
                    proof { lemma_body_from_bounds(ls, i + 1, seq![]); }
                    let (body, next) = body_from(ls, i + 1, seq![]);
                    parse_lines_from(ls, next, insert_entry(acc, name, (params, body)))
                },
            }
        }
    }
}

/// The commands that a profile text defines, in order of first definition
/// (a later definition of a name replaces the earlier one in place), or
/// the error of its first malformed line.
pub open spec fn parse_profile(source: Seq<char>) -> Result<
    Seq<(Seq<char>, (Seq<Seq<char>>, Seq<Seq<char>>))>,
    Seq<char>,
> {
    parse_lines_from(lines_of(source), 0, seq![])
}

/// `msg` followed by the characters of `line`, as a string.
fn message(msg: &str, line: &[char]) -> (r: String)
    ensures
        r@ == msg@ + line@,
{
    let mut v = chars_of(msg);
    append_chars(&mut v, line);
    string_of(v.as_slice())
}

/// Reads a command header.
fn parse_header_chars(line: &[char]) -> (r: Result<(Vec<char>, Vec<Vec<char>>), String>)
    ensures
        r matches Ok(p) ==> parse_header(line@) == Ok::<(Seq<char>, Seq<Seq<char>>), Seq<char>>(
            (p.0@, views(p.1@)),
        ),
        r matches Err(e) ==> parse_header(line@) == Err::<(Seq<char>, Seq<Seq<char>>), Seq<char>>(
            e@,
        ),
{
    let header = match strip_prefix_chars(line, "command ") {
        Some(h) => h,
        None => return Err(message("Invalid syntax.ff line: ", line)),
    };
    proof { lemma_find_char_facts(header@, '('); }
    let hn = header.len();
    let op = match position_of(header.as_slice(), '(') {
        Some(p) => p,
        None => return Err(message("Expected '(' in command header: ", line)),
    };
    let after_open = copy_range(header.as_slice(), op + 1, hn);
    assert(after_open@ =~= header@.skip(op + 1));
    proof { lemma_find_char_facts(after_open@, ')'); }
    let c0 = match position_of(after_open.as_slice(), ')') {
        Some(p) => p,
        None => return Err(message("Expected ')' in command header: ", line)),
    };
    let cp = op + 1 + c0;
    let name_part = copy_range(header.as_slice(), 0, op);
    assert(name_part@ =~= header@.take(op as int));
    let name = trimmed(name_part.as_slice());
    let ps_part = copy_range(header.as_slice(), op + 1, cp);
    let ps = trimmed(ps_part.as_slice());
    let rest = copy_range(header.as_slice(), cp + 1, hn);
    assert(rest@ =~= header@.skip(cp + 1));
    let after = trimmed(rest.as_slice());
    if !chars_equal(after.as_slice(), "{") {
        return Err(message("Expected '{' in command header: ", line));
    }
    let mut params: Vec<Vec<char>> = Vec::new();
    if ps.len() > 0 {
        let pieces = split_at_char(ps.as_slice(), ',');
        for k in 0..pieces.len()
            invariant
                views(pieces@) == split_on(ps@, ','),
                views(params@) == views(pieces@).take(k as int).map_values(|p: Seq<char>| trim(p)),
        {
            let t = trimmed(pieces[k].as_slice());
            let ghost prev = params@;
            params.push(t);
            assert(views(params@) =~= views(prev).push(t@));
            assert(views(pieces@).take(k + 1).map_values(|p: Seq<char>| trim(p)) =~= views(pieces@).take(
                k as int,
            ).map_values(|p: Seq<char>| trim(p)).push(trim(pieces@[k as int]@)));
        }
        assert(views(pieces@).take(pieces@.len() as int) =~= views(pieces@));
    } else {
        assert(views(params@) =~= Seq::<Seq<char>>::empty());
    }
    Ok((name, params))
}

/// Reads the body of a command from line `j`.
fn body_from_chars(ls: &Vec<Vec<char>>, j: usize) -> (r: (Vec<Vec<char>>, usize))
    requires
        j <= ls@.len(),
    ensures
        (views(r.0@), r.1 as int) == body_from(views(ls@), j as int, seq![]),
{
    let ghost target = body_from(views(ls@), j as int, seq![]);
    let mut body: Vec<Vec<char>> = Vec::new();
    let mut k = j;
    assert(views(body@) =~= Seq::<Seq<char>>::empty());
    while k < ls.len()
        invariant
            j <= k <= ls@.len(),
            target == body_from(views(ls@), j as int, seq![]),
            target == body_from(views(ls@), k as int, views(body@)),
        decreases ls.len() - k,
    {
        let bl = trimmed(ls[k].as_slice());
        assert(views(ls@)[k as int] == ls@[k as int]@);
        if chars_equal(bl.as_slice(), "}") {
            return (body, k + 1);
        }
        if bl.len() > 0 {
            let ghost prev = body@;
            body.push(bl);
            assert(views(body@) =~= views(prev).push(bl@));
        }
        k = k + 1;
    }
    (body, k)
}

impl SyntaxProfile {
    /// The commands in entry order, each with its parameters and body.
    pub open spec fn command_list(&self) -> Seq<(Seq<char>, (Seq<Seq<char>>, Seq<Seq<char>>))> {
        command_views(self.commands.pairs())
    }

    /// Reads a profile text: `command name(params) {` headers, each followed
    /// by its body lines up to a line that is `}` alone. Blank lines,
    /// comments (`//`, `#`), the `fforge-main {` opener and stray closing
    /// braces are skipped; any other line is an error.
    pub fn parse(source: &str) -> (r: Result<Self, String>)
        ensures
            r matches Ok(p) ==> parse_profile(source@) == Ok::<
                Seq<(Seq<char>, (Seq<Seq<char>>, Seq<Seq<char>>))>,
                Seq<char>,
            >(p.command_list()),
            r matches Err(e) ==> parse_profile(source@) == Err::<
                Seq<(Seq<char>, (Seq<Seq<char>>, Seq<Seq<char>>))>,
                Seq<char>,
            >(e@),
    {
        let s = chars_of(source);
        let ls = split_lines(s.as_slice());
        let ghost lv = views(ls@);
        let ghost target = parse_profile(source@);
        let mut profile = SyntaxProfile::new();
        let mut i: usize = 0;
        assert(profile.command_list() =~= Seq::<(Seq<char>, (Seq<Seq<char>>, Seq<Seq<char>>))>::empty());
        while i < ls.len()
            invariant
                i <= ls@.len(),
                lv == views(ls@),
                lv == lines_of(source@),
                target == parse_profile(source@),
                target == parse_lines_from(lv, i as int, profile.command_list()),
            decreases ls.len() - i,
        {
            let line = trimmed(ls[i].as_slice());
            assert(lv[i as int] == ls@[i as int]@);
            let skip = line.len() == 0 || has_prefix(line.as_slice(), "//") || has_prefix(
                line.as_slice(),
                "#",
            ) || chars_equal(line.as_slice(), "fforge-main {") || chars_equal(line.as_slice(), "}");
            if skip {
                i = i + 1;
            } else {
                match parse_header_chars(line.as_slice()) {
                    Err(e) => {
                        return Err(e);
                    },
                    Ok((name, params)) => {
                        let (body, next) = body_from_chars(&ls, i + 1);
                        proof { lemma_body_from_bounds(lv, i + 1, seq![]); }
                        let def = CommandDef { params: strings_of(&params), body: strings_of(&body) };
                        let key = string_of(name.as_slice());
                        let ghost before = profile.commands.pairs();
                        proof { lemma_command_views_insert(before, key@, def); }
                        assert(def_view(def) == (views(params@), views(body@)));
                        profile.commands.insert(key, def);
                        i = next;
                    },
                }
            }
        }
        Ok(profile)
    }
}

/// Whether `s` ends with `p`.
pub open spec fn ends_with(s: Seq<char>, p: Seq<char>) -> bool {
    p.len() <= s.len() && s.skip(s.len() - p.len()) == p
}

/// Whether `s` ends with the characters of `p`.
fn has_suffix(s: &[char], p: &str) -> (r: bool)
    ensures
        r == ends_with(s@, p@),
{
    let pv = chars_of(p);
    let n = s.len();
    if pv.len() > n {
        return false;
    }
    let tail = copy_range(s, n - pv.len(), n);
    assert(tail@ =~= s@.skip(s@.len() - p@.len()));
    same_chars(tail.as_slice(), pv.as_slice())
}

/// The profile that a `use` line names: `use name.ff` or `use "name.ff"`.
pub open spec fn use_target(line: Seq<char>) -> Option<Seq<char>> {
    if !starts_with(line, "use "@) {
        None
    } else {
        let t = trim(line.skip("use "@.len() as int));
        if t.len() >= 2 && t[0] == '"' && t.last() == '"' && ends_with(
            t.subrange(1, t.len() - 1),
            ".ff"@,
        ) {
            Some(t.subrange(1, t.len() - 1))
        } else if ends_with(t, ".ff"@) {
            Some(t)
        } else {
            None
        }
    }
}

/// The profile that a `use` line names, if `line` is one.
fn use_target_chars(line: &[char]) -> (r: Option<Vec<char>>)
    ensures
        r matches Some(t) ==> use_target(line@) == Some(t@),
        r is None ==> use_target(line@) is None,
{
    let rest = match strip_prefix_chars(line, "use ") {
        Some(r) => r,
        None => return None,
    };
    let t = trimmed(rest.as_slice());
    let n = t.len();
    if n >= 2 && t[0] == '"' && t[n - 1] == '"' {
        let inner = copy_range(t.as_slice(), 1, n - 1);
        if has_suffix(inner.as_slice(), ".ff") {
            return Some(inner);
        }
    }
    if has_suffix(t.as_slice(), ".ff") {
        return Some(t);
    }
    None
}

/// The profile file that a `use` line names: `use name.ff` or
/// `use "name.ff"`; `None` for any other line.
pub fn parse_use_ff_line(line: &str) -> (r: Option<String>)
    ensures
        r matches Some(t) ==> use_target(line@) == Some(t@),
        r is None ==> use_target(line@) is None,
{
    let s = chars_of(line);
    match use_target_chars(s.as_slice()) {
        Some(t) => Some(string_of(t.as_slice())),
        None => None,
    }
}

/// The profiles that the `use` lines of `ls` name, in order.
pub open spec fn use_targets_of(ls: Seq<Seq<char>>) -> Seq<Seq<char>>
    decreases ls.len(),
{
    if ls.len() == 0 {
        seq![]
    } else {
        use_targets_of(ls.drop_last()) + match use_target(trim(ls.last())) {
            Some(t) => seq![t],
            None => seq![],
        }
    }
}

/// The lines of `ls` that are not `use` lines, in order.
pub open spec fn content_lines(ls: Seq<Seq<char>>) -> Seq<Seq<char>>
    decreases ls.len(),
{
    if ls.len() == 0 {
        seq![]
    } else {
        content_lines(ls.drop_last()) + match use_target(trim(ls.last())) {
            Some(_) => seq![],
            None => seq![ls.last()],
        }
    }
}

/// The profile files that the `use` lines of `source` name, in order.
pub fn use_targets(source: &str) -> (r: Vec<String>)
    ensures
        strs(r@) == use_targets_of(lines_of(source@)),
{
    let s = chars_of(source);
    let ls = split_lines(s.as_slice());
    let mut out: Vec<String> = Vec::new();
    for i in 0..ls.len()
        invariant
            views(ls@) == lines_of(source@),
            strs(out@) == use_targets_of(views(ls@).take(i as int)),
    {
        let ghost t = views(ls@).take(i + 1);
        assert(t.drop_last() =~= views(ls@).take(i as int));
        assert(t.last() == ls@[i as int]@);
        let line = trimmed(ls[i].as_slice());
        match use_target_chars(line.as_slice()) {
            Some(target) => {
                let ghost prev = out@;
                out.push(string_of(target.as_slice()));
                assert(strs(out@) =~= strs(prev).push(target@));
            },
            None => {
                assert(strs(out@) + Seq::<Seq<char>>::empty() =~= strs(out@));
            },
        }
    }
    assert(views(ls@).take(ls@.len() as int) =~= views(ls@));
    out
}

/// The text a source becomes: its `use` lines dropped, its statement
/// commands expanded, the expression commands of each line expanded, and
/// the low-level forms lowered.
pub open spec fn preprocess_spec(source: Seq<char>, profile: SyntaxProfile) -> Seq<char> {
    let expanded = expand_lines(content_lines(lines_of(source)), profile@);
    let with_exprs = expanded.map_values(
        |l: Seq<char>| expand_in_line_spec(l, profile.commands.pairs()),
    );
    lower_spec(join_lines(with_exprs))
}

/// Preprocesses `source` with the commands of `profile`, which holds the
/// commands of the profiles its `use` lines name: the `use` lines are
/// dropped, statement commands are expanded, then the expression commands
/// of each line, and finally the low-level forms are lowered.
pub fn preprocess_source(source: &str, profile: &SyntaxProfile) -> (r: String)
    requires
        profile.params_named(),
    ensures
        r@ == preprocess_spec(source@, *profile),
{
    let s = chars_of(source);
    let ls = split_lines(s.as_slice());
    let mut content: Vec<String> = Vec::new();
    for i in 0..ls.len()
        invariant
            views(ls@) == lines_of(source@),
            strs(content@) == content_lines(views(ls@).take(i as int)),
    {
        let ghost t = views(ls@).take(i + 1);
        assert(t.drop_last() =~= views(ls@).take(i as int));
        assert(t.last() == ls@[i as int]@);
        let line = trimmed(ls[i].as_slice());
        match use_target_chars(line.as_slice()) {
            Some(_) => {
                assert(strs(content@) + Seq::<Seq<char>>::empty() =~= strs(content@));
            },
            None => {
                let ghost prev = content@;
                content.push(string_of(ls[i].as_slice()));
                assert(strs(content@) =~= strs(prev).push(ls@[i as int]@));
            },
        }
    }
    assert(views(ls@).take(ls@.len() as int) =~= views(ls@));
    let expanded = expand_commands(content.as_slice(), profile);
    let ghost ex = strs(expanded@);
    let ghost pairs = profile.commands.pairs();
    let mut lines_out: Vec<Vec<char>> = Vec::new();
    for i in 0..expanded.len()
        invariant
            profile.params_named(),
            ex == strs(expanded@),
            pairs == profile.commands.pairs(),
            views(lines_out@) == ex.take(i as int).map_values(
                |l: Seq<char>| expand_in_line_spec(l, pairs),
            ),
    {
        let l = chars_of(expanded[i].as_str());
        let e = expand_in_line_chars(l, profile);
        let ghost prev = lines_out@;
        lines_out.push(e);
        assert(views(lines_out@) =~= views(prev).push(e@));
        assert(ex.take(i + 1).map_values(|l: Seq<char>| expand_in_line_spec(l, pairs)) =~= ex.take(
            i as int,
        ).map_values(|l: Seq<char>| expand_in_line_spec(l, pairs)).push(
            expand_in_line_spec(ex[i as int], pairs),
        ));
    }
    assert(ex.take(ex.len() as int) =~= ex);
    let joined = join_with_newlines(lines_out.as_slice());
    let lowered = lower_chars(joined.as_slice());
    string_of(lowered.as_slice())
}

/// A copy of each string.
fn clone_strings(v: &Vec<String>) -> (r: Vec<String>)
    ensures
        strs(r@) == strs(v@),
{
    let mut out: Vec<String> = Vec::new();
    for i in 0..v.len()
        invariant
            strs(out@) == strs(v@).take(i as int),
    {
        let ghost prev = out@;
        out.push(v[i].clone());
        assert(strs(out@) =~= strs(prev).push(v@[i as int]@));
        assert(strs(v@).take(i + 1) =~= strs(v@).take(i as int).push(v@[i as int]@));
    }
    assert(strs(v@).take(v@.len() as int) =~= strs(v@));
    out
}

impl CommandDef {
    /// A copy with the same parameters and body.
    pub fn clone_def(&self) -> (r: CommandDef)
        ensures
            def_view(r) == def_view(*self),
    {
        CommandDef { params: clone_strings(&self.params), body: clone_strings(&self.body) }
    }
}

impl SyntaxProfile {
    /// The parameters and body of each command, by name.
    pub open spec fn defs(&self) -> Map<Seq<char>, (Seq<Seq<char>>, Seq<Seq<char>>)> {
        self@.map_values(|d: CommandDef| def_view(d))
    }

    /// Adds the commands of `other`, replacing any of the same name.
    pub fn merge(&mut self, other: &SyntaxProfile)
        ensures
            final(self).defs() == old(self).defs().union_prefer_right(other.defs()),
            old(self).params_named() && other.params_named() ==> final(self).params_named(),
    {
        let n = other.commands.len();
        let ghost start = self.defs();
        let ghost names = other.commands.names();
        let ghost od = other.defs();
        assert(start.union_prefer_right(Map::new(|k: Seq<char>| names.take(0).contains(k), |k: Seq<char>| od[k])) =~= start);
        for i in 0..n
            invariant
                n == other.commands.pairs().len(),
                names == other.commands.names(),
                od == other.defs(),
                self.defs() == start.union_prefer_right(
                    Map::new(|k: Seq<char>| names.take(i as int).contains(k), |k: Seq<char>| od[k]),
                ),
                old(self).params_named() && other.params_named() ==> self.params_named(),
        {
            let name = other.commands.name_at(i);
            let def = other.commands.value_at(i);
            let copy = def.clone_def();
            let ghost k = name@;
            let ghost before = self.defs();
            let ghost pre = Map::new(|q: Seq<char>| names.take(i as int).contains(q), |q: Seq<char>| od[q]);
            let ghost post = Map::new(|q: Seq<char>| names.take(i + 1).contains(q), |q: Seq<char>| od[q]);
            assert(names[i as int] == k);
            assert(post =~= pre.insert(k, od[k])) by {
                let a = names.take(i as int);
                let b = names.take(i + 1);
                assert(b =~= a.push(k));
                assert forall|q: Seq<char>| #[trigger] b.contains(q) == (a.contains(q) || q == k) by {
                    if b.contains(q) {
                        let j = choose|j: int| 0 <= j < b.len() && b[j] == q;
                        if j < i {
                            assert(a[j] == q);
                        }
                    }
                    if a.contains(q) {
                        let j = choose|j: int| 0 <= j < a.len() && a[j] == q;
                        assert(b[j] == q);
                    }
                    if q == k {
                        assert(b[i as int] == q);
                    }
                }
            }
            self.commands.insert(name.clone(), copy);
            assert(self.defs() =~= before.insert(k, od[k]));
            assert(self.defs() =~= start.union_prefer_right(post));
        }
        proof {
            crate::name_map::lemma_names_dom(&other.commands);
            assert(names.take(n as int) =~= names);
            assert(Map::new(|k: Seq<char>| names.take(n as int).contains(k), |k: Seq<char>| od[k]) =~= od);
        }
    }
}

/// The default profile: the commands that every program can use.
pub const DEFAULT_SYNTAX_FF: &'static str = r#"fforge-main {
command say(value) {
ll.print "hello "
ll.print value
}
command ask(prompt) {
ll.expr __ff_builtin_ask__: prompt
}
command print(value) {
ll.print value
}
command println(value) {
ll.print value
ll.print "\n"
}
command define(name, value) {
ll.var name, value
}
command set(name, value) {
ll.mov name, value
}
command call(name, args) {
ll.call name, args
}
command len(value) {
ll.expr __ff_builtin_len__: value
}
command str(value) {
ll.expr __ff_builtin_str__: value
}
command num(value) {
ll.expr __ff_builtin_num__: value
}
command keys(value) {
ll.expr __ff_builtin_keys__: value
}
command values(value) {
ll.expr __ff_builtin_values__: value
}
command range(start, end) {
ll.expr __ff_builtin_range__: start, end
}
command abs(value) {
ll.expr __ff_builtin_abs__: value
}
command sqrt(value) {
ll.expr __ff_builtin_sqrt__: value
}
command min(left, right) {
ll.expr __ff_builtin_min__: left, right
}
command max(left, right) {
ll.expr __ff_builtin_max__: left, right
}
command pow(left, right) {
ll.expr __ff_builtin_pow__: left, right
}
command contains(left, right) {
ll.expr __ff_builtin_contains__: left, right
}
command emit(line) {
ll.raw line
}
}"#;

/// The text of the default profile.
pub fn default_syntax_ff() -> (r: String)
    ensures
        r@ == DEFAULT_SYNTAX_FF@,
{
    DEFAULT_SYNTAX_FF.to_owned()
}


/// The pieces of a list are all non-blank and trimmed.
pub open spec fn all_trimmed(ps: Seq<Seq<char>>) -> bool {
    forall|k: int| 0 <= k < ps.len() ==> #[trigger] ps[k].len() > 0 && trim(ps[k]) == ps[k]
}

/// Two lists of trimmed pieces make one.
proof fn lemma_all_trimmed_concat(a: Seq<Seq<char>>, b: Seq<Seq<char>>)
    requires
        all_trimmed(a),
        all_trimmed(b),
    ensures
        all_trimmed(a + b),
{
    assert forall|k: int| 0 <= k < (a + b).len() implies #[trigger] (a + b)[k].len() > 0 && trim((a + b)[k]) == (a + b)[k] by {
        if k < a.len() {
            assert((a + b)[k] == a[k]);
        } else {
            assert((a + b)[k] == b[k - a.len()]);
        }
    }
}

/// A gathered piece is pushed trimmed, if at all.
proof fn lemma_piece_trimmed(cur: Seq<char>)
    ensures
        all_trimmed(piece_of(cur)),
{
    lemma_trim_idempotent(cur);
}

/// Splitting from any state yields trimmed pieces.
proof fn lemma_split_args_trimmed(
    s: Seq<char>,
    i: int,
    cur: Seq<char>,
    dp: nat,
    db: nat,
    dk: nat,
    ins: bool,
    esc: bool,
)
    ensures
        all_trimmed(split_args_from(s, i, cur, dp, db, dk, ins, esc)),
    decreases s.len() - i,
{
    if i < 0 || i >= s.len() {
        lemma_piece_trimmed(cur);
    } else {
        let ch = s[i];
        if ins {
            if esc {
                lemma_split_args_trimmed(s, i + 1, cur.push(ch), dp, db, dk, true, false);
            } else if ch == '\\' {
                lemma_split_args_trimmed(s, i + 1, cur.push(ch), dp, db, dk, true, true);
            } else if ch == '"' {
                lemma_split_args_trimmed(s, i + 1, cur.push(ch), dp, db, dk, false, false);
            } else {
                lemma_split_args_trimmed(s, i + 1, cur.push(ch), dp, db, dk, true, false);
            }
        } else if ch == '"' {
            lemma_split_args_trimmed(s, i + 1, cur.push(ch), dp, db, dk, true, esc);
        } else if ch == '(' {
            lemma_split_args_trimmed(s, i + 1, cur.push(ch), dp + 1, db, dk, false, esc);
        } else if ch == ')' {
            lemma_split_args_trimmed(s, i + 1, cur.push(ch), dec(dp), db, dk, false, esc);
        } else if ch == '{' {
            lemma_split_args_trimmed(s, i + 1, cur.push(ch), dp, db + 1, dk, false, esc);
        } else if ch == '}' {
            lemma_split_args_trimmed(s, i + 1, cur.push(ch), dp, dec(db), dk, false, esc);
        } else if ch == '[' {
            lemma_split_args_trimmed(s, i + 1, cur.push(ch), dp, db, dk + 1, false, esc);
        } else if ch == ']' {
            lemma_split_args_trimmed(s, i + 1, cur.push(ch), dp, db, dec(dk), false, esc);
        } else if ch == ',' && dp == 0 && db == 0 && dk == 0 {
            lemma_piece_trimmed(cur);
            lemma_split_args_trimmed(s, i + 1, seq![], dp, db, dk, false, esc);
            lemma_all_trimmed_concat(piece_of(cur), split_args_from(s, i + 1, seq![], dp, db, dk, false, esc));
        } else {
            lemma_split_args_trimmed(s, i + 1, cur.push(ch), dp, db, dk, false, esc);
        }
    }
}

/// The arguments of a statement are never blank and carry no surrounding
/// white space.
pub proof fn law_split_args_trimmed(s: Seq<char>)
    ensures
        all_trimmed(split_args(s)),
{
    lemma_split_args_trimmed(s, 0, seq![], 0, 0, 0, false, false);
}

/// Replacing a word by itself from position `i` on gives back the rest of
/// the line.
proof fn lemma_replace_by_itself(s: Seq<char>, w: Seq<char>, i: int)
    requires
        0 <= i <= s.len(),
    ensures
        replace_from(s, w, w, i) == s.skip(i),
    decreases s.len() - i,
{
    if i < s.len() {
        if w.len() > 0 && word_at(s, w, i) {
            lemma_replace_by_itself(s, w, i + w.len());
            assert(w + s.skip(i + w.len()) =~= s.skip(i));
        } else {
            lemma_replace_by_itself(s, w, i + 1);
            assert(seq![s[i]] + s.skip(i + 1) =~= s.skip(i));
        }
    } else {
        assert(s.skip(i) =~= Seq::<char>::empty());
    }
}

/// A line in which `w` never stands as a whole word is left as it is from
/// position `i` on.
proof fn lemma_replace_absent(s: Seq<char>, w: Seq<char>, rep: Seq<char>, i: int)
    requires
        0 <= i <= s.len(),
        forall|j: int| 0 <= j < s.len() ==> !#[trigger] word_at(s, w, j),
    ensures
        replace_from(s, w, rep, i) == s.skip(i),
    decreases s.len() - i,
{
    if i < s.len() {
        lemma_replace_absent(s, w, rep, i + 1);
        assert(seq![s[i]] + s.skip(i + 1) =~= s.skip(i));
    } else {
        assert(s.skip(i) =~= Seq::<char>::empty());
    }
}

/// Replacing a word by itself changes nothing, and neither does replacing
/// a word that never stands as a whole word in the line.
pub proof fn law_replace_word_unchanged(s: Seq<char>, w: Seq<char>, rep: Seq<char>)
    ensures
        replace_word_spec(s, w, w) == s,
        (forall|j: int| 0 <= j < s.len() ==> !#[trigger] word_at(s, w, j)) ==> replace_word_spec(s, w, rep) == s,
{
    lemma_replace_by_itself(s, w, 0);
    assert(s.skip(0) =~= s);
    if forall|j: int| 0 <= j < s.len() ==> !#[trigger] word_at(s, w, j) {
        lemma_replace_absent(s, w, rep, 0);
    }
}

/// A profile with no commands expands no line.
pub proof fn law_expand_without_commands(lines: Seq<Seq<char>>)
    ensures
        expand_lines(lines, Map::<Seq<char>, CommandDef>::empty()) == lines,
    decreases lines.len(),
{
    if lines.len() > 0 {
        law_expand_without_commands(lines.drop_last());
        assert(lines.drop_last().push(lines.last()) =~= lines);
    }
}

/// Every line of a source is either a `use` line, whose profile is named,
/// or a content line: no `use` line reaches the content, and the two
/// together account for all the lines.
pub proof fn law_use_lines_split(lines: Seq<Seq<char>>)
    ensures
        forall|k: int| 0 <= k < content_lines(lines).len() ==> use_target(trim(#[trigger] content_lines(lines)[k])) is None,
        content_lines(lines).len() + use_targets_of(lines).len() == lines.len(),
    decreases lines.len(),
{
    if lines.len() > 0 {
        law_use_lines_split(lines.drop_last());
        let c = content_lines(lines.drop_last());
        let l = lines.last();
        match use_target(trim(l)) {
            Some(_) => {
                assert(content_lines(lines) =~= c);
            },
            None => {
                assert(content_lines(lines) =~= c.push(l));
                assert forall|k: int| 0 <= k < content_lines(lines).len() implies use_target(trim(#[trigger] content_lines(lines)[k])) is None by {
                    if k < c.len() {
                        assert(content_lines(lines)[k] == c[k]);
                    }
                }
            },
        }
    }
}

/// Lines none of which is a `use` line are all content.
proof fn lemma_content_without_use(ls: Seq<Seq<char>>)
    requires
        forall|i: int| 0 <= i < ls.len() ==> use_target(trim(#[trigger] ls[i])) is None,
    ensures
        content_lines(ls) == ls,
    decreases ls.len(),
{
    if ls.len() > 0 {
        lemma_content_without_use(ls.drop_last());
        assert(use_target(trim(ls[ls.len() - 1])) is None);
        assert(ls.drop_last().push(ls.last()) =~= ls);
        assert(ls.drop_last() + seq![ls.last()] =~= ls);
    }
}

/// Preprocessing a source that has no `use` lines with a profile that has
/// no commands only lowers the low-level forms of its lines: the result is
/// the low-level lowering of the source's lines joined again.
pub proof fn law_preprocess_without_commands(source: Seq<char>, profile: SyntaxProfile)
    requires
        profile.commands.pairs() == Seq::<(Seq<char>, CommandDef)>::empty(),
        forall|i: int| 0 <= i < lines_of(source).len() ==> use_target(trim(#[trigger] lines_of(source)[i])) is None,
    ensures
        preprocess_spec(source, profile) == lower_spec(join_lines(lines_of(source))),
{
    let ls = lines_of(source);
    lemma_content_without_use(ls);
    assert(profile@ =~= Map::<Seq<char>, CommandDef>::empty());
    law_expand_without_commands(ls);
    let pairs = profile.commands.pairs();
    let with_exprs = ls.map_values(|l: Seq<char>| expand_in_line_spec(l, pairs));
    assert forall|i: int| 0 <= i < ls.len() implies with_exprs[i] == ls[i] by {
        assert(best_candidate(pairs, ls[i]) is None);
        assert(expand_once_spec(ls[i], pairs) is None);
    }
    assert(with_exprs =~= ls);
}

/// A text that begins with a prefix of `ll.` begins with `ll.`.
proof fn lemma_low_level_prefix(t: Seq<char>, p: Seq<char>)
    requires
        p.len() >= 3,
        p[0] == 'l' && p[1] == 'l' && p[2] == '.',
        starts_with(t, p),
    ensures
        starts_with(t, "ll."@),
{
    reveal_strlit("ll.");
    assert(t.take(3) =~= "ll."@) by {
        assert(t.take(p.len() as int) == p);
        assert(t[0] == p[0] && t[1] == p[1] && t[2] == p[2]);
    }
}

/// A line that does not begin with `ll.` (after trimming) is not a
/// low-level form: lowering leaves it as it is.
pub proof fn law_plain_line_unchanged(raw: Seq<char>)
    requires
        !starts_with(trim(raw), "ll."@),
    ensures
        lower_line(raw) == raw,
{
    let t = trim(raw);
    reveal_strlit("ll.print ");
    reveal_strlit("ll.print:");
    reveal_strlit("ll.mov ");
    reveal_strlit("ll.mov:");
    reveal_strlit("ll.var ");
    reveal_strlit("ll.var:");
    reveal_strlit("ll.call ");
    reveal_strlit("ll.call:");
    reveal_strlit("ll.raw ");
    reveal_strlit("ll.raw:");
    if starts_with(t, "ll.print "@) { lemma_low_level_prefix(t, "ll.print "@); }
    if starts_with(t, "ll.print:"@) { lemma_low_level_prefix(t, "ll.print:"@); }
    if starts_with(t, "ll.mov "@) { lemma_low_level_prefix(t, "ll.mov "@); }
    if starts_with(t, "ll.mov:"@) { lemma_low_level_prefix(t, "ll.mov:"@); }
    if starts_with(t, "ll.var "@) { lemma_low_level_prefix(t, "ll.var "@); }
    if starts_with(t, "ll.var:"@) { lemma_low_level_prefix(t, "ll.var:"@); }
    if starts_with(t, "ll.call "@) { lemma_low_level_prefix(t, "ll.call "@); }
    if starts_with(t, "ll.call:"@) { lemma_low_level_prefix(t, "ll.call:"@); }
    if starts_with(t, "ll.raw "@) { lemma_low_level_prefix(t, "ll.raw "@); }
    if starts_with(t, "ll.raw:"@) { lemma_low_level_prefix(t, "ll.raw:"@); }
}

/// A text none of whose lines is a low-level form is only split into lines
/// and joined again by the lowering.
pub proof fn law_plain_text_unchanged(source: Seq<char>)
    requires
        forall|i: int| 0 <= i < lines_of(source).len() ==> !starts_with(trim(#[trigger] lines_of(source)[i]), "ll."@),
    ensures
        lower_spec(source) == join_lines(lines_of(source)),
{
    let ls = lines_of(source);
    assert forall|i: int| 0 <= i < ls.len() implies lower_line(ls[i]) == ls[i] by {
        law_plain_line_unchanged(ls[i]);
    }
    assert(ls.map_values(|l: Seq<char>| lower_line(l)) =~= ls);
}

/// Reading from line `i` on, when every line from there is skippable, adds
/// no command.
proof fn lemma_skippable_rest(ls: Seq<Seq<char>>, i: int, acc: Seq<(Seq<char>, (Seq<Seq<char>>, Seq<Seq<char>>))>)
    requires
        0 <= i <= ls.len(),
        forall|j: int| i <= j < ls.len() ==> skippable(trim(#[trigger] ls[j])),
    ensures
        parse_lines_from(ls, i, acc) == Ok::<Seq<(Seq<char>, (Seq<Seq<char>>, Seq<Seq<char>>))>, Seq<char>>(acc),
    decreases ls.len() - i,
{
    if i < ls.len() {
        assert(skippable(trim(ls[i])));
        lemma_skippable_rest(ls, i + 1, acc);
    }
}

/// A profile text whose lines are all blank, comments, the `fforge-main {`
/// opener or closing braces defines no command.
pub proof fn law_comments_define_nothing(source: Seq<char>)
    requires
        forall|j: int| 0 <= j < lines_of(source).len() ==> skippable(trim(#[trigger] lines_of(source)[j])),
    ensures
        parse_profile(source) == Ok::<Seq<(Seq<char>, (Seq<Seq<char>>, Seq<Seq<char>>))>, Seq<char>>(seq![]),
{
    lemma_skippable_rest(lines_of(source), 0, seq![]);
}

/// Adding an entry keeps the names distinct.
proof fn lemma_insert_entry_distinct<V>(s: Seq<(Seq<char>, V)>, k: Seq<char>, v: V)
    requires
        distinct_names(s),
    ensures
        distinct_names(insert_entry(s, k, v)),
{
    let r = insert_entry(s, k, v);
    if has_name(s, k) {
        assert forall|i: int, j: int| 0 <= i < r.len() && 0 <= j < r.len() && i != j implies #[trigger] r[i].0
            != #[trigger] r[j].0 by {
            assert(r[i].0 == s[i].0);
            assert(r[j].0 == s[j].0);
        }
    } else {
        assert forall|i: int, j: int| 0 <= i < r.len() && 0 <= j < r.len() && i != j implies #[trigger] r[i].0
            != #[trigger] r[j].0 by {
            if i < s.len() && j < s.len() {
                assert(r[i] == s[i] && r[j] == s[j]);
            } else if i < s.len() {
                assert(r[i] == s[i]);
                assert(r[j].0 == k);
            } else {
                assert(r[j] == s[j]);
                assert(r[i].0 == k);
            }
        }
    }
}

/// Reading from line `i` on keeps the names of the commands distinct.
proof fn lemma_parse_lines_distinct(ls: Seq<Seq<char>>, i: int, acc: Seq<(Seq<char>, (Seq<Seq<char>>, Seq<Seq<char>>))>)
    requires
        distinct_names(acc),
    ensures
        parse_lines_from(ls, i, acc) matches Ok(cmds) ==> distinct_names(cmds),
    decreases ls.len() - i,
{
    if 0 <= i < ls.len() {
        let line = trim(ls[i]);
        if skippable(line) {
            lemma_parse_lines_distinct(ls, i + 1, acc);
        } else {
            match parse_header(line) {
                Err(_) => {},
                Ok((name, params)) => {
                    lemma_body_from_bounds(ls, i + 1, seq![]);
                    let (body, next) = body_from(ls, i + 1, seq![]);
                    lemma_insert_entry_distinct(acc, name, (params, body));
                    lemma_parse_lines_distinct(ls, next, insert_entry(acc, name, (params, body)));
                },
            }
        }
    }
}

/// A profile defines each command name once: a later definition of a name
/// replaces the earlier one.
pub proof fn law_profile_names_distinct(source: Seq<char>)
    ensures
        parse_profile(source) matches Ok(cmds) ==> distinct_names(cmds),
{
    lemma_parse_lines_distinct(lines_of(source), 0, seq![]);
}

} // verus!
