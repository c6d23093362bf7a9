//! Canned answers for the `ask` builtin: prompts are normalised (trimmed,
//! lowercased, white space collapsed) and looked up exactly, then by
//! keywords that must all occur in the prompt.
//!
//! Reading the answers file and parsing its JSON happen outside; this
//! module builds the tables from the parsed entries and answers lookups.

use vstd::prelude::*;
use crate::chars::{
    is_space, trim, trimmed, views, join_sep, join_with, contains_seq, contains_chars, space,
    copy_range,
};
use crate::text::{chars_of, string_of};
use crate::name_map::NameMap;

verus! {

/// The lowercase form of a text as Unicode maps it (`str::to_lowercase`):
/// mostly character by character, with a final capital sigma mapped by its
/// context.
pub uninterp spec fn lowercase(s: Seq<char>) -> Seq<char>;

/// `str::to_lowercase`: the result is named `lowercase` of the input; no
/// more of the Unicode case mapping is stated.
#[verifier::external_body]
fn to_lowercase(s: &str) -> (r: String)
    ensures
        r@ == lowercase(s@),
{
    s.to_lowercase()
}

/// The words of `s` from position `i` on, given the word `cur` gathered so
/// far: the maximal runs of non-white-space characters.
pub open spec fn words_from(s: Seq<char>, i: int, cur: Seq<char>) -> Seq<Seq<char>>
    decreases s.len() - i,
{
    if i < 0 || i >= s.len() {
        if cur.len() > 0 { seq![cur] } else { seq![] }
    } else if is_space(s[i]) {
        (if cur.len() > 0 { seq![cur] } else { seq![] }) + words_from(s, i + 1, seq![])
    } else {
        words_from(s, i + 1, cur.push(s[i]))
    }
}

/// The words of `s`, as `str::split_whitespace` gives them.
pub open spec fn words(s: Seq<char>) -> Seq<Seq<char>> {
    words_from(s, 0, seq![])
}

/// The words of `s`.
fn split_words(s: &[char]) -> (r: Vec<Vec<char>>)
    ensures
        views(r@) == words(s@),
{
    let ghost target = words(s@);
    let mut out: Vec<Vec<char>> = Vec::new();
    let mut cur: Vec<char> = Vec::new();
    let n = s.len();
    let mut i: usize = 0;
    assert(views(out@) =~= Seq::<Seq<char>>::empty());
    while i < n
        invariant
            i <= n,
            n == s@.len(),
            target == words(s@),
            target == views(out@) + words_from(s@, i as int, cur@),
        decreases n - i,
    {
        if space(s[i]) {
            if cur.len() > 0 {
                let ghost prev = out@;
                let ghost c = cur@;
                out.push(cur);
                cur = Vec::new();
                assert(views(out@) =~= views(prev).push(c));
                assert(views(prev) + (seq![c] + words_from(s@, i + 1, seq![])) =~= views(out@) + words_from(
                    s@,
                    i + 1,
                    cur@,
                ));
            } else {
                assert(cur@ =~= Seq::<char>::empty());
                assert(views(out@) + (Seq::<Seq<char>>::empty() + words_from(s@, i + 1, seq![])) =~= views(
                    out@,
                ) + words_from(s@, i + 1, seq![]));
            }
        } else {
            cur.push(s[i]);
        }
        i = i + 1;
    }
    if cur.len() > 0 {
        let ghost prev = out@;
        let ghost c = cur@;
        out.push(cur);
        assert(views(out@) =~= views(prev).push(c));
    } else {
        assert(views(out@) + Seq::<Seq<char>>::empty() =~= views(out@));
    }
    out
}

/// A prompt normalised: trimmed, lowercased, and its words joined by
/// single spaces.
pub open spec fn normalized(s: Seq<char>) -> Seq<char> {
    join_sep(words(lowercase(trim(s))), ' ')
}

/// Normalises a prompt or keyword: trims it, lowercases it and collapses
/// its white space to single spaces.
pub fn normalize(input: &str) -> (r: String)
    ensures
        r@ == normalized(input@),
{
    let s = chars_of(input);
    let t = trimmed(s.as_slice());
    let ts = string_of(t.as_slice());
    let lower = to_lowercase(ts.as_str());
    let lc = chars_of(lower.as_str());
    let ws = split_words(lc.as_slice());
    let joined = join_with(ws.as_slice(), ' ');
    string_of(joined.as_slice())
}

/// An entry of the answers file: a prompt, its answer, and optional keywords.
#[derive(Debug, Clone)]
pub struct TrainingEntry {
    pub prompt: String,
    pub answer: String,
    pub keywords: Vec<String>,
}

/// The characters of each string.
pub open spec fn strs(v: Seq<String>) -> Seq<Seq<char>> {
    v.map_values(|s: String| s@)
}

/// An entry as character sequences: prompt, answer, keywords.
pub open spec fn entry_view(e: TrainingEntry) -> (Seq<char>, Seq<char>, Seq<Seq<char>>) {
    (e.prompt@, e.answer@, strs(e.keywords@))
}

/// The answers: exact prompts, and keyword lists tried in order.
#[derive(Debug)]
pub struct TrainingData {
    exact: NameMap<String>,
    keyword: Vec<(Vec<String>, String)>,
}

/// A keyword rule as character sequences.
pub open spec fn rule_view(r: (Vec<String>, String)) -> (Seq<Seq<char>>, Seq<char>) {
    (strs(r.0@), r.1@)
}

/// The non-blank normalised forms of `ks`, in order.
pub open spec fn normalized_keywords(ks: Seq<Seq<char>>) -> Seq<Seq<char>>
    decreases ks.len(),
{
    if ks.len() == 0 {
        seq![]
    } else {
        let rest = normalized_keywords(ks.drop_last());
        if normalized(ks.last()).len() > 0 {
            rest.push(normalized(ks.last()))
        } else {
            rest
        }
    }
}

/// The tables after taking in one entry: an entry whose prompt normalises
/// to nothing is skipped; one with usable keywords adds a keyword rule;
/// any other is an exact answer for its normalised prompt.
pub open spec fn ingest_one(
    exact: Map<Seq<char>, Seq<char>>,
    rules: Seq<(Seq<Seq<char>>, Seq<char>)>,
    e: (Seq<char>, Seq<char>, Seq<Seq<char>>),
) -> (Map<Seq<char>, Seq<char>>, Seq<(Seq<Seq<char>>, Seq<char>)>) {
    let p = normalized(e.0);
    if p.len() == 0 {
        (exact, rules)
    } else if e.2.len() > 0 && normalized_keywords(e.2).len() > 0 {
        (exact, rules.push((normalized_keywords(e.2), e.1)))
    } else {
        (exact.insert(p, e.1), rules)
    }
}

/// The tables after taking in `es` in order.
pub open spec fn ingest_all(
    exact: Map<Seq<char>, Seq<char>>,
    rules: Seq<(Seq<Seq<char>>, Seq<char>)>,
    es: Seq<(Seq<char>, Seq<char>, Seq<Seq<char>>)>,
) -> (Map<Seq<char>, Seq<char>>, Seq<(Seq<Seq<char>>, Seq<char>)>)
    decreases es.len(),
{
    if es.len() == 0 {
        (exact, rules)
    } else {
        let (m, r) = ingest_all(exact, rules, es.drop_last());
        ingest_one(m, r, es.last())
    }
}

/// The exact answers after storing each pair's answer under its normalised prompt.
pub open spec fn ingest_pairs_spec(exact: Map<Seq<char>, Seq<char>>, ps: Seq<(Seq<char>, Seq<char>)>) -> Map<
    Seq<char>,
    Seq<char>,
>
    decreases ps.len(),
{
    if ps.len() == 0 {
        exact
    } else {
        ingest_pairs_spec(exact, ps.drop_last()).insert(normalized(ps.last().0), ps.last().1)
    }
}

/// Whether every keyword occurs in `n`.
pub open spec fn all_occur(ks: Seq<Seq<char>>, n: Seq<char>) -> bool {
    forall|k: int| 0 <= k < ks.len() ==> contains_seq(n, #[trigger] ks[k])
}

/// The answer of the first rule whose keywords all occur in `n`.
pub open spec fn first_rule_match(rules: Seq<(Seq<Seq<char>>, Seq<char>)>, n: Seq<char>) -> Option<Seq<char>>
    decreases rules.len(),
{
    if rules.len() == 0 {
        None
    } else if all_occur(rules[0].0, n) {
        Some(rules[0].1)
    } else {
        first_rule_match(rules.drop_first(), n)
    }
}

/// The answer to a prompt: the exact answer for its normalised form, else
/// (for a prompt that is not blank) the first keyword rule that matches.
pub open spec fn answer_for(
    exact: Map<Seq<char>, Seq<char>>,
    rules: Seq<(Seq<Seq<char>>, Seq<char>)>,
    prompt: Seq<char>,
) -> Option<Seq<char>> {
    let n = normalized(prompt);
    if exact.contains_key(n) {
        Some(exact[n])
    } else if n.len() > 0 {
        first_rule_match(rules, n)
    } else {
        None
    }
}

impl TrainingData {
    /// The exact answers by normalised prompt.
    pub closed spec fn exact_answers(&self) -> Map<Seq<char>, Seq<char>> {
        self.exact@.map_values(|s: String| s@)
    }

    /// The keyword rules in the order they are tried.
    pub closed spec fn rules(&self) -> Seq<(Seq<Seq<char>>, Seq<char>)> {
        self.keyword@.map_values(|r: (Vec<String>, String)| rule_view(r))
    }

    /// No answers.
    pub fn new() -> (d: Self)
        ensures
            d.exact_answers() == Map::<Seq<char>, Seq<char>>::empty(),
            d.rules() == Seq::<(Seq<Seq<char>>, Seq<char>)>::empty(),
    {
        let d = TrainingData { exact: NameMap::new(), keyword: Vec::new() };
        assert(d.exact_answers() =~= Map::<Seq<char>, Seq<char>>::empty());
        assert(d.rules() =~= Seq::<(Seq<Seq<char>>, Seq<char>)>::empty());
        d
    }

    /// Stores `answer` as the exact answer for `prompt`.
    fn store_exact(&mut self, prompt: String, answer: String)
        ensures
            final(self).exact_answers() == old(self).exact_answers().insert(prompt@, answer@),
            final(self).rules() == old(self).rules(),
    {
        let ghost p = prompt@;
        let ghost a = answer@;
        self.exact.insert(prompt, answer);
        assert(self.exact_answers() =~= old(self).exact_answers().insert(p, a));
    }

    /// Takes in the entries of an answers file, in order.
    pub fn ingest_entries(&mut self, entries: &[TrainingEntry])
        ensures
            (final(self).exact_answers(), final(self).rules()) == ingest_all(
                old(self).exact_answers(),
                old(self).rules(),
                entries@.map_values(|e: TrainingEntry| entry_view(e)),
            ),
    {
        let ghost es = entries@.map_values(|e: TrainingEntry| entry_view(e));
        for i in 0..entries.len()
            invariant
                es == entries@.map_values(|e: TrainingEntry| entry_view(e)),
                (self.exact_answers(), self.rules()) == ingest_all(
                    old(self).exact_answers(),
                    old(self).rules(),
                    es.take(i as int),
                ),
        {
            assert(es.take(i + 1).drop_last() =~= es.take(i as int));
            assert(es.take(i + 1).last() == entry_view(entries@[i as int]));
            let entry = &entries[i];
            let prompt = normalize(entry.prompt.as_str());
            if prompt.as_str().is_empty() {
            } else if entry.keywords.len() == 0 {
                self.store_exact(prompt, entry.answer.clone());
            } else {
                let ks = normalize_keywords(&entry.keywords);
                if ks.len() > 0 {
                    let ghost prev = self.keyword@;
                    let ghost kv = strs(ks@);
                    self.keyword.push((ks, entry.answer.clone()));
                    assert(self.rules() =~= prev.map_values(|r: (Vec<String>, String)| rule_view(r)).push(
                        (kv, entry.answer@),
                    ));
                } else {
                    self.store_exact(prompt, entry.answer.clone());
                }
            }
        }
        assert(es.take(entries@.len() as int) =~= es);
    }

    /// Takes in the prompt and answer pairs of an answers file that is a
    /// plain object, in order: each answer is stored under its normalised
    /// prompt.
    pub fn ingest_pairs(&mut self, pairs: &[(String, String)])
        ensures
            final(self).exact_answers() == ingest_pairs_spec(
                old(self).exact_answers(),
                pairs@.map_values(|p: (String, String)| (p.0@, p.1@)),
            ),
            final(self).rules() == old(self).rules(),
    {
        let ghost ps = pairs@.map_values(|p: (String, String)| (p.0@, p.1@));
        for i in 0..pairs.len()
            invariant
                ps == pairs@.map_values(|p: (String, String)| (p.0@, p.1@)),
                self.exact_answers() == ingest_pairs_spec(old(self).exact_answers(), ps.take(i as int)),
                self.rules() == old(self).rules(),
        {
            assert(ps.take(i + 1).drop_last() =~= ps.take(i as int));
            assert(ps.take(i + 1).last() == (pairs@[i as int].0@, pairs@[i as int].1@));
            let key = normalize(pairs[i].0.as_str());
            self.store_exact(key, pairs[i].1.clone());
        }
        assert(ps.take(pairs@.len() as int) =~= ps);
    }
}

/// The non-blank normalised keywords.
fn normalize_keywords(ks: &Vec<String>) -> (r: Vec<String>)
    ensures
        strs(r@) == normalized_keywords(strs(ks@)),
{
    let mut out: Vec<String> = Vec::new();
    for i in 0..ks.len()
        invariant
            strs(out@) == normalized_keywords(strs(ks@).take(i as int)),
    {
        let ghost t = strs(ks@).take(i + 1);
        assert(t.drop_last() =~= strs(ks@).take(i as int));
        assert(t.last() == ks@[i as int]@);
        let k = normalize(ks[i].as_str());
        if !k.as_str().is_empty() {
            let ghost prev = out@;
            let ghost kv = k@;
            out.push(k);
            assert(strs(out@) =~= strs(prev).push(kv));
        }
    }
    assert(strs(ks@).take(ks@.len() as int) =~= strs(ks@));
    out
}

/// Whether every keyword of `ks` occurs in `n`.
fn all_keywords_occur(ks: &Vec<String>, n: &[char]) -> (r: bool)
    ensures
        r == all_occur(strs(ks@), n@),
{
    for k in 0..ks.len()
        invariant
            forall|j: int| 0 <= j < k ==> contains_seq(n@, #[trigger] strs(ks@)[j]),
    {
        let kc = chars_of(ks[k].as_str());
        if !contains_chars(n, kc.as_slice()) {
            assert(!contains_seq(n@, strs(ks@)[k as int]));
            return false;
        }
    }
    true
}

/// The answer to `prompt`: the exact answer for its normalised form, else,
/// for a prompt that is not blank, the answer of the first keyword rule
/// whose keywords all occur in it.
pub fn lookup(data: &TrainingData, prompt: &str) -> (r: Option<String>)
    ensures
        match r {
            Some(a) => answer_for(data.exact_answers(), data.rules(), prompt@) == Some(a@),
            None => answer_for(data.exact_answers(), data.rules(), prompt@) is None,
        },
{
    let n = normalize(prompt);
    match data.exact.get(n.as_str()) {
        Some(a) => {
            return Some(a.clone());
        },
        None => {},
    }
    if n.as_str().is_empty() {
        return None;
    }
    let nc = chars_of(n.as_str());
    let ghost rules = data.rules();
    assert(rules.skip(0) =~= rules);
    for i in 0..data.keyword.len()
        invariant
            rules == data.rules(),
            nc@ == normalized(prompt@),
            !data.exact_answers().contains_key(nc@),
            nc@.len() > 0,
            first_rule_match(rules, nc@) == first_rule_match(rules.skip(i as int), nc@),
    {
        let ghost rest = rules.skip(i as int);
        assert(rest[0] == rule_view(data.keyword@[i as int]));
        assert(rest.drop_first() =~= rules.skip(i + 1));
        if all_keywords_occur(&data.keyword[i].0, nc.as_slice()) {
            return Some(data.keyword[i].1.clone());
        }
    }
    assert(rules.skip(rules.len() as int) =~= Seq::<(Seq<Seq<char>>, Seq<char>)>::empty());
    None
}

} // verus!
