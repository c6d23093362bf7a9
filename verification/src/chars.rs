//! Character-level text operations: whitespace, trimming, prefixes, searching,
//! splitting into lines and pieces, and joining lines back together.
//!
//! Each operation is stated over `Seq<char>` and implemented on `Vec<char>`.

use vstd::prelude::*;

verus! {

/// Unicode white space, as `char::is_whitespace` classifies it.
pub open spec fn is_space(c: char) -> bool {
    let u = c as u32;
    ||| 0x09 <= u <= 0x0D
    ||| u == 0x20
    ||| u == 0x85
    ||| u == 0xA0
    ||| u == 0x1680
    ||| 0x2000 <= u <= 0x200A
    ||| u == 0x2028
    ||| u == 0x2029
    ||| u == 0x202F
    ||| u == 0x205F
    ||| u == 0x3000
}

/// ASCII white space, as `char::is_ascii_whitespace` classifies it:
/// space, tab, line feed, form feed and carriage return.
pub open spec fn is_ascii_space(c: char) -> bool {
    c == ' ' || c == '\t' || c == '\n' || c == '\x0C' || c == '\r'
}

/// Whether `c` is white space.
pub fn space(c: char) -> (r: bool)
    ensures
        r == is_space(c),
{
    let u = c as u32;
    (0x09 <= u && u <= 0x0D) || u == 0x20 || u == 0x85 || u == 0xA0 || u == 0x1680 || (0x2000
        <= u && u <= 0x200A) || u == 0x2028 || u == 0x2029 || u == 0x202F || u == 0x205F || u
        == 0x3000
}

/// Whether `c` is ASCII white space.
pub fn ascii_space(c: char) -> (r: bool)
    ensures
        r == is_ascii_space(c),
{
    c == ' ' || c == '\t' || c == '\n' || c == '\x0C' || c == '\r'
}

/// `s` without its leading white space.
pub open spec fn trim_start(s: Seq<char>) -> Seq<char>
    decreases s.len(),
{
    if s.len() > 0 && is_space(s[0]) {
        trim_start(s.drop_first())
    } else {
        s
    }
}

/// `s` without its trailing white space.
pub open spec fn trim_end(s: Seq<char>) -> Seq<char>
    decreases s.len(),
{
    if s.len() > 0 && is_space(s.last()) {
        trim_end(s.drop_last())
    } else {
        s
    }
}

/// `s` without leading and trailing white space, as `str::trim` gives it.
pub open spec fn trim(s: Seq<char>) -> Seq<char> {
    trim_end(trim_start(s))
}

/// Skipping white space at the front: after `i` white-space characters the
/// rest trims to the same thing.
proof fn lemma_trim_start_skip(s: Seq<char>, i: int)
    requires
        0 <= i < s.len(),
        is_space(s[i]),
    ensures
        trim_start(s.subrange(i, s.len() as int)) == trim_start(s.subrange(i + 1, s.len() as int)),
{
    let t = s.subrange(i, s.len() as int);
    assert(t.drop_first() =~= s.subrange(i + 1, s.len() as int));
}

/// Dropping white space at the back.
proof fn lemma_trim_end_drop(s: Seq<char>, lo: int, j: int)
    requires
        0 <= lo < j <= s.len(),
        is_space(s[j - 1]),
    ensures
        trim_end(s.subrange(lo, j)) == trim_end(s.subrange(lo, j - 1)),
{
    let t = s.subrange(lo, j);
    assert(t.drop_last() =~= s.subrange(lo, j - 1));
}

/// The characters of `s` from `lo` up to `hi`, as a new vector.
pub fn copy_range(s: &[char], lo: usize, hi: usize) -> (r: Vec<char>)
    requires
        lo <= hi <= s@.len(),
    ensures
        r@ == s@.subrange(lo as int, hi as int),
{
    vstd::slice::slice_to_vec(vstd::slice::slice_subrange(s, lo, hi))
}

/// Appends the characters of `t` to `v`.
pub fn append_chars(v: &mut Vec<char>, t: &[char])
    ensures
        final(v)@ == old(v)@ + t@,
{
    let ghost start = v@;
    for i in 0..t.len()
        invariant
            v@ == start + t@.take(i as int),
    {
        v.push(t[i]);
        assert(t@.take(i + 1) =~= t@.take(i as int).push(t@[i as int]));
    }
    assert(t@.take(t@.len() as int) =~= t@);
}

/// The bounds of the trimmed part of `s`.
fn trim_bounds(s: &[char]) -> (r: (usize, usize))
    ensures
        r.0 <= r.1 <= s@.len(),
        s@.subrange(r.0 as int, r.1 as int) == trim(s@),
{
    let n = s.len();
    let mut lo: usize = 0;
    assert(s@.subrange(0, n as int) =~= s@);
    while lo < n && space(s[lo])
        invariant
            lo <= n,
            n == s@.len(),
            trim_start(s@) == trim_start(s@.subrange(lo as int, n as int)),
        decreases n - lo,
    {
        proof { lemma_trim_start_skip(s@, lo as int); }
        lo = lo + 1;
    }
    assert(s@.subrange(0, n as int) =~= s@);
    let ghost t = s@.subrange(lo as int, n as int);
    assert(trim_start(t) == t);
    let mut hi: usize = n;
    while hi > lo && space(s[hi - 1])
        invariant
            lo <= hi <= n,
            n == s@.len(),
            trim(s@) == trim_end(s@.subrange(lo as int, hi as int)),
        decreases hi - lo,
    {
        proof { lemma_trim_end_drop(s@, lo as int, hi as int); }
        hi = hi - 1;
    }
    (lo, hi)
}

/// `s` trimmed of white space at both ends.
pub fn trimmed(s: &[char]) -> (r: Vec<char>)
    ensures
        r@ == trim(s@),
{
    let (lo, hi) = trim_bounds(s);
    copy_range(s, lo, hi)
}

/// Whether `s` begins with `p`.
pub open spec fn starts_with(s: Seq<char>, p: Seq<char>) -> bool {
    p.len() <= s.len() && s.take(p.len() as int) == p
}

/// Whether `s` begins with the characters of `p`.
pub fn has_prefix(s: &[char], p: &str) -> (r: bool)
    ensures
        r == starts_with(s@, p@),
{
    let pv = crate::text::chars_of(p);
    if pv.len() > s.len() {
        return false;
    }
    let mut i: usize = 0;
    while i < pv.len()
        invariant
            i <= pv.len() <= s@.len(),
            pv@ == p@,
            forall|j: int| 0 <= j < i ==> s@[j] == pv@[j],
        decreases pv.len() - i,
    {
        if s[i] != pv[i] {
            assert(s@.take(pv@.len() as int)[i as int] != p@[i as int]);
            return false;
        }
        i = i + 1;
    }
    assert(s@.take(pv@.len() as int) =~= p@);
    true
}

/// Whether `s` holds exactly the characters of `t`.
pub fn chars_equal(s: &[char], t: &str) -> (r: bool)
    ensures
        r == (s@ == t@),
{
    let tv = crate::text::chars_of(t);
    if tv.len() != s.len() {
        return false;
    }
    let r = has_prefix(s, t);
    proof {
        if r {
            assert(s@ =~= s@.take(t@.len() as int));
        } else {
            assert(s@.take(t@.len() as int) =~= s@);
        }
    }
    r
}

/// Whether `w` occurs in `s` at `i`, character for character.
pub fn occurs_at(s: &[char], w: &[char], i: usize) -> (r: bool)
    requires
        i <= s@.len(),
    ensures
        r == (i + w@.len() <= s@.len() && s@.subrange(i as int, i + w@.len()) == w@),
{
    let n = s.len();
    if w.len() > n - i {
        return false;
    }
    let mut k: usize = 0;
    while k < w.len()
        invariant
            k <= w@.len(),
            n == s@.len(),
            i <= s@.len(),
            i + w@.len() <= s@.len(),
            forall|j: int| 0 <= j < k ==> s@[i + j] == w@[j],
        decreases w.len() - k,
    {
        if s[i + k] != w[k] {
            assert(s@.subrange(i as int, i + w@.len())[k as int] != w@[k as int]);
            return false;
        }
        k = k + 1;
    }
    assert(s@.subrange(i as int, i + w@.len()) =~= w@);
    true
}

/// Whether `k` occurs somewhere in `s`, as `str::contains` tells.
pub open spec fn contains_seq(s: Seq<char>, k: Seq<char>) -> bool {
    exists|i: int| 0 <= i && i + k.len() <= s.len() && #[trigger] s.subrange(i, i + k.len()) == k
}

/// Whether `k` occurs somewhere in `s`.
pub fn contains_chars(s: &[char], k: &[char]) -> (r: bool)
    ensures
        r == contains_seq(s@, k@),
{
    let n = s.len();
    if k.len() > n {
        return false;
    }
    let last = n - k.len();
    let mut i: usize = 0;
    loop
        invariant
            i <= last,
            last + k@.len() == n,
            n == s@.len(),
            forall|j: int| 0 <= j < i ==> #[trigger] s@.subrange(j, j + k@.len()) != k@,
        decreases last - i,
    {
        if occurs_at(s, k, i) {
            return true;
        }
        if i == last {
            assert forall|j: int| 0 <= j && j + k@.len() <= s@.len() implies #[trigger] s@.subrange(j, j + k@.len()) != k@ by {
                assert(j <= last);
            }
            return false;
        }
        i = i + 1;
    }
}

/// The position of the first `c` in `s`, if there is one.
pub open spec fn find_char(s: Seq<char>, c: char) -> Option<int> {
    if exists|i: int| 0 <= i < s.len() && s[i] == c {
        Some(choose|i: int| 0 <= i < s.len() && s[i] == c && forall|j: int| 0 <= j < i ==> s[j] != c)
    } else {
        None
    }
}

/// `find_char` gives the first position of `c`.
pub proof fn lemma_find_char_at(s: Seq<char>, c: char, i: int)
    requires
        0 <= i < s.len(),
        s[i] == c,
        forall|j: int| 0 <= j < i ==> s[j] != c,
    ensures
        find_char(s, c) == Some(i),
{
    assert(exists|k: int| 0 <= k < s.len() && s[k] == c);
    let k = choose|k: int| 0 <= k < s.len() && s[k] == c && forall|j: int| 0 <= j < k ==> s[j] != c;
    assert(0 <= i < s.len() && s[i] == c && forall|j: int| 0 <= j < i ==> s[j] != c);
    if k < i {
        assert(s[k] != c);
    } else if i < k {
        assert(s[i] != c);
    }
}

/// `find_char` is `None` when `c` does not occur.
pub proof fn lemma_find_char_none(s: Seq<char>, c: char)
    requires
        forall|j: int| 0 <= j < s.len() ==> s[j] != c,
    ensures
        find_char(s, c) is None,
{
}

/// What `find_char` says of the string it searched.
pub proof fn lemma_find_char_facts(s: Seq<char>, c: char)
    ensures
        match find_char(s, c) {
            Some(i) => 0 <= i < s.len() && s[i] == c && forall|j: int| 0 <= j < i ==> s[j] != c,
            None => forall|j: int| 0 <= j < s.len() ==> s[j] != c,
        },
{
    if exists|i: int| 0 <= i < s.len() && s[i] == c {
        let w = choose|i: int| 0 <= i < s.len() && s[i] == c;
        let first = first_position(s, c, w);
        lemma_find_char_at(s, c, first);
    }
}

/// The first position of `c` in `s`, found by looking below a known one.
proof fn first_position(s: Seq<char>, c: char, w: int) -> (k: int)
    requires
        0 <= w < s.len(),
        s[w] == c,
    ensures
        0 <= k <= w,
        s[k] == c,
        forall|j: int| 0 <= j < k ==> s[j] != c,
    decreases w,
{
    if exists|j: int| 0 <= j < w && s[j] == c {
        let j = choose|j: int| 0 <= j < w && s[j] == c;
        first_position(s, c, j)
    } else {
        w
    }
}

/// The position of the first `c` in `s`.
pub fn position_of(s: &[char], c: char) -> (r: Option<usize>)
    ensures
        r matches Some(i) ==> find_char(s@, c) == Some(i as int),
        r is None ==> find_char(s@, c) is None,
{
    let mut i: usize = 0;
    while i < s.len()
        invariant
            i <= s@.len(),
            forall|j: int| 0 <= j < i ==> s@[j] != c,
        decreases s.len() - i,
    {
        if s[i] == c {
            proof { lemma_find_char_at(s@, c, i as int); }
            return Some(i);
        }
        i = i + 1;
    }
    None
}

/// The views of a list of character vectors.
pub open spec fn views(v: Seq<Vec<char>>) -> Seq<Seq<char>> {
    v.map_values(|x: Vec<char>| x@)
}

/// `l` without one carriage return at its end.
pub open spec fn strip_cr(l: Seq<char>) -> Seq<char> {
    if l.len() > 0 && l.last() == '\r' {
        l.drop_last()
    } else {
        l
    }
}

/// The lines of `s`, as `str::lines` gives them: split at each line feed,
/// with a carriage return right before it dropped; a final line feed ends
/// the last line and starts no new one.
#[verifier::opaque]
pub open spec fn lines_of(s: Seq<char>) -> Seq<Seq<char>>
    decreases s.len(),
{
    if s.len() == 0 {
        seq![]
    } else {
        proof { lemma_find_char_facts(s, '\n'); }
        match find_char(s, '\n') {
            Some(k) => seq![strip_cr(s.take(k))] + lines_of(s.skip(k + 1)),
            None => seq![s],
        }
    }
}

/// One step of taking lines: the line that ends at the line feed at `i`.
proof fn lemma_lines_step(s: Seq<char>, start: int, i: int)
    requires
        0 <= start <= i < s.len(),
        s[i] == '\n',
        forall|j: int| start <= j < i ==> s[j] != '\n',
    ensures
        lines_of(s.skip(start)) == seq![strip_cr(s.subrange(start, i))] + lines_of(s.skip(i + 1)),
{
    reveal(lines_of);
    let t = s.skip(start);
    assert forall|j: int| 0 <= j < i - start implies t[j] != '\n' by {
        assert(t[j] == s[start + j]);
    }
    lemma_find_char_at(t, '\n', i - start);
    assert(t.take(i - start) =~= s.subrange(start, i));
    assert(t.skip(i - start + 1) =~= s.skip(i + 1));
}

/// The last line: what follows the last line feed, if anything does.
proof fn lemma_lines_last(s: Seq<char>, start: int)
    requires
        0 <= start <= s.len(),
        forall|j: int| start <= j < s.len() ==> s[j] != '\n',
    ensures
        lines_of(s.skip(start)) == (if start < s.len() { seq![s.skip(start)] } else { Seq::<Seq<char>>::empty() }),
{
    reveal(lines_of);
    let t = s.skip(start);
    assert forall|j: int| 0 <= j < t.len() implies t[j] != '\n' by {
        assert(t[j] == s[start + j]);
    }
    lemma_find_char_none(t, '\n');
    if start == s.len() {
        assert(t.len() == 0);
    }
}

/// The lines of `s`.
pub fn split_lines(s: &[char]) -> (r: Vec<Vec<char>>)
    ensures
        views(r@) == lines_of(s@),
{
    let n = s.len();
    let mut out: Vec<Vec<char>> = Vec::new();
    let mut start: usize = 0;
    let mut i: usize = 0;
    assert(s@.skip(0) =~= s@);
    while i < n
        invariant
            start <= i <= n,
            n == s@.len(),
            lines_of(s@) == views(out@) + lines_of(s@.skip(start as int)),
            forall|j: int| start <= j < i ==> s@[j] != '\n',
        decreases n - i,
    {
        if s[i] == '\n' {
            proof { lemma_lines_step(s@, start as int, i as int); }
            let mut line = copy_range(s, start, i);
            if line.len() > 0 && line[line.len() - 1] == '\r' {
                line.pop();
            }
            assert(line@ == strip_cr(s@.subrange(start as int, i as int)));
            let ghost prev = out@;
            out.push(line);
            assert(views(out@) =~= views(prev).push(line@));
            start = i + 1;
        }
        i = i + 1;
    }
    proof { lemma_lines_last(s@, start as int); }
    if start < n {
        let line = copy_range(s, start, n);
        assert(line@ =~= s@.skip(start as int));
        let ghost prev = out@;
        out.push(line);
        assert(views(out@) =~= views(prev).push(line@));
    } else {
        assert(views(out@) + Seq::<Seq<char>>::empty() =~= views(out@));
    }
    out
}

/// Pieces joined with `sep` between each two, as `join` gives them.
pub open spec fn join_sep(ls: Seq<Seq<char>>, sep: char) -> Seq<char>
    decreases ls.len(),
{
    if ls.len() == 0 {
        seq![]
    } else if ls.len() == 1 {
        ls[0]
    } else {
        join_sep(ls.drop_last(), sep) + seq![sep] + ls.last()
    }
}

/// Lines joined with a line feed between each two, as `join("\n")` gives them.
pub open spec fn join_lines(ls: Seq<Seq<char>>) -> Seq<char> {
    join_sep(ls, '\n')
}

/// The pieces of `ls` joined with `sep`.
pub fn join_with(ls: &[Vec<char>], sep: char) -> (r: Vec<char>)
    ensures
        r@ == join_sep(views(ls@), sep),
{
    let mut out: Vec<char> = Vec::new();
    for i in 0..ls.len()
        invariant
            out@ == join_sep(views(ls@).take(i as int), sep),
    {
        let ghost before = views(ls@).take(i as int);
        let ghost after = views(ls@).take(i + 1);
        assert(after.drop_last() =~= before);
        assert(after.last() == ls@[i as int]@);
        if i > 0 {
            out.push(sep);
        } else {
            assert(before =~= Seq::<Seq<char>>::empty());
        }
        append_chars(&mut out, ls[i].as_slice());
    }
    assert(views(ls@).take(ls@.len() as int) =~= views(ls@));
    out
}

/// The lines of `ls` joined with line feeds.
pub fn join_with_newlines(ls: &[Vec<char>]) -> (r: Vec<char>)
    ensures
        r@ == join_lines(views(ls@)),
{
    join_with(ls, '\n')
}

/// The pieces of `s` between the occurrences of `c`, as `str::split` with a
/// character gives them.
#[verifier::opaque]
pub open spec fn split_on(s: Seq<char>, c: char) -> Seq<Seq<char>>
    decreases s.len(),
{
    proof { lemma_find_char_facts(s, c); }
    match find_char(s, c) {
        Some(k) => seq![s.take(k)] + split_on(s.skip(k + 1), c),
        None => seq![s],
    }
}

/// One step of splitting: the piece that ends at the `c` at `i`.
proof fn lemma_split_step(s: Seq<char>, c: char, start: int, i: int)
    requires
        0 <= start <= i < s.len(),
        s[i] == c,
        forall|j: int| start <= j < i ==> s[j] != c,
    ensures
        split_on(s.skip(start), c) == seq![s.subrange(start, i)] + split_on(s.skip(i + 1), c),
{
    reveal(split_on);
    let t = s.skip(start);
    assert forall|j: int| 0 <= j < i - start implies t[j] != c by {
        assert(t[j] == s[start + j]);
    }
    lemma_find_char_at(t, c, i - start);
    assert(t.take(i - start) =~= s.subrange(start, i));
    assert(t.skip(i - start + 1) =~= s.skip(i + 1));
}

/// The last piece: everything after the last `c`.
proof fn lemma_split_last(s: Seq<char>, c: char, start: int)
    requires
        0 <= start <= s.len(),
        forall|j: int| start <= j < s.len() ==> s[j] != c,
    ensures
        split_on(s.skip(start), c) == seq![s.skip(start)],
{
    reveal(split_on);
    let t = s.skip(start);
    assert forall|j: int| 0 <= j < t.len() implies t[j] != c by {
        assert(t[j] == s[start + j]);
    }
    lemma_find_char_none(t, c);
}

/// The pieces of `s` between the occurrences of `c`.
pub fn split_at_char(s: &[char], c: char) -> (r: Vec<Vec<char>>)
    ensures
        views(r@) == split_on(s@, c),
{
    let n = s.len();
    let mut out: Vec<Vec<char>> = Vec::new();
    let mut start: usize = 0;
    let mut i: usize = 0;
    assert(s@.skip(0) =~= s@);
    while i < n
        invariant
            start <= i <= n,
            n == s@.len(),
            split_on(s@, c) == views(out@) + split_on(s@.skip(start as int), c),
            forall|j: int| start <= j < i ==> s@[j] != c,
        decreases n - i,
    {
        if s[i] == c {
            proof { lemma_split_step(s@, c, start as int, i as int); }
            let piece = copy_range(s, start, i);
            let ghost prev = out@;
            out.push(piece);
            assert(views(out@) =~= views(prev).push(piece@));
            start = i + 1;
        }
        i = i + 1;
    }
    proof { lemma_split_last(s@, c, start as int); }
    let piece = copy_range(s, start, n);
    assert(piece@ =~= s@.skip(start as int));
    let ghost prev = out@;
    out.push(piece);
    assert(views(out@) =~= views(prev).push(piece@));
    out
}


/// What `trim_start` leaves does not begin with white space.
proof fn lemma_trim_start_no_lead(s: Seq<char>)
    ensures
        trim_start(s).len() == 0 || !is_space(trim_start(s)[0]),
    decreases s.len(),
{
    if s.len() > 0 && is_space(s[0]) {
        lemma_trim_start_no_lead(s.drop_first());
    }
}

/// What `trim_end` leaves does not end with white space, and is a prefix.
proof fn lemma_trim_end_prefix(s: Seq<char>)
    ensures
        trim_end(s).len() == 0 || !is_space(trim_end(s).last()),
        trim_end(s).len() <= s.len(),
        trim_end(s) == s.take(trim_end(s).len() as int),
    decreases s.len(),
{
    if s.len() > 0 && is_space(s.last()) {
        lemma_trim_end_prefix(s.drop_last());
        let t = trim_end(s.drop_last());
        assert(s.drop_last().take(t.len() as int) =~= s.take(t.len() as int));
    } else {
        assert(s.take(s.len() as int) =~= s);
    }
}

/// Trimming twice is trimming once.
pub proof fn lemma_trim_idempotent(s: Seq<char>)
    ensures
        trim(trim(s)) == trim(s),
{
    let y = trim_start(s);
    let z = trim_end(y);
    lemma_trim_start_no_lead(s);
    lemma_trim_end_prefix(y);
    if z.len() > 0 {
        assert(z[0] == y[0]);
        assert(trim_start(z) == z);
        assert(trim_end(z) == z);
    } else {
        assert(trim_start(z) == z);
    }
}

} // verus!
