//! The text layer of the ARM64 assembly generator: the output buffer, fresh
//! labels, the stack-frame layout of a function, its prologue and epilogue,
//! and loads and stores of variables.

use vstd::prelude::*;
use crate::chars::append_chars;
use crate::text::{chars_of, string_of, decimal, signed_decimal, decimal_chars, i64_to_text};
use crate::name_map::NameMap;
use crate::ir::{IrInstr, InstrView, instrs_view, names_view, opt_view};
use vstd::relations::sorted_by;

verus! {

/// Lines, each followed by a line feed.
pub open spec fn line_text(lines: Seq<Seq<char>>) -> Seq<char>
    decreases lines.len(),
{
    if lines.len() == 0 {
        seq![]
    } else {
        line_text(lines.drop_last()) + lines.last() + seq!['\n']
    }
}

/// `str xzr, [sp, #<8k>]` for the slots `0..n` of a frame.
pub open spec fn zero_slot_lines(n: int) -> Seq<Seq<char>>
    decreases n,
{
    if n <= 0 {
        seq![]
    } else {
        zero_slot_lines(n - 1).push("    str xzr, [sp, #"@ + signed_decimal((n - 1) * 8) + "]"@)
    }
}

/// `str x<i>, [sp, #<offset>]` for the first `n` parameters (at most eight).
pub open spec fn param_store_lines(params: Seq<Seq<char>>, offsets: Map<Seq<char>, i32>, n: int) -> Seq<
    Seq<char>,
>
    decreases n,
{
    if n <= 0 {
        seq![]
    } else {
        param_store_lines(params, offsets, n - 1).push(
            "    str x"@ + decimal((n - 1) as nat) + ", [sp, #"@ + signed_decimal(offsets[params[n - 1]] as int)
                + "]"@,
        )
    }
}

/// The prologue of a function whose frame is `frame` bytes.
pub open spec fn prologue_lines(frame: i32, params: Seq<Seq<char>>, offsets: Map<Seq<char>, i32>) -> Seq<
    Seq<char>,
> {
    seq!["    stp x29, x30, [sp, #-16]!"@, "    mov x29, sp"@] + (if frame > 0 {
        seq!["    sub sp, sp, #"@ + signed_decimal(frame as int)] + zero_slot_lines(frame / 8)
    } else {
        seq![]
    }) + param_store_lines(params, offsets, if params.len() < 8 { params.len() as int } else { 8 })
}

/// The reference-count release of each slot, the return value being saved
/// 16 bytes below.
pub open spec fn release_lines(offsets: Seq<i32>) -> Seq<Seq<char>>
    decreases offsets.len(),
{
    if offsets.len() == 0 {
        seq![]
    } else {
        release_lines(offsets.drop_last()) + seq![
            "    ldr x0, [sp, #"@ + signed_decimal(offsets.last() + 16) + "]"@,
            "    bl _dec_rc"@,
        ]
    }
}

/// The epilogue of a function: its label, the return value saved, every
/// slot released in increasing offset order, the return value restored,
/// the frame freed and the return.
pub open spec fn epilogue_lines(label: Seq<char>, frame: i32, sorted: Seq<i32>) -> Seq<Seq<char>> {
    seq![label + ":"@, "    sub sp, sp, #16"@, "    str x0, [sp, #0]"@] + release_lines(sorted) + seq![
        "    ldr x0, [sp, #0]"@,
        "    add sp, sp, #16"@,
    ] + (if frame > 0 {
        seq!["    add sp, sp, #"@ + signed_decimal(frame as int)]
    } else {
        seq![]
    }) + seq!["    ldp x29, x30, [sp], #16"@, "    ret"@]
}

/// The order on offsets.
pub open spec fn offset_leq() -> spec_fn(i32, i32) -> bool {
    |a: i32, b: i32| a <= b
}

/// The names in first-seen order: parameters, then destinations, each once.
pub open spec fn first_seen(names: Seq<Seq<char>>) -> Seq<Seq<char>>
    decreases names.len(),
{
    if names.len() == 0 {
        seq![]
    } else {
        let rest = first_seen(names.drop_last());
        if rest.contains(names.last()) {
            rest
        } else {
            rest.push(names.last())
        }
    }
}

/// Whether the `i`-th slot is at offset `8 i`, for each `i`.
pub open spec fn dense(slots: Seq<(Seq<char>, i32)>) -> bool {
    forall|i: int| 0 <= i < slots.len() ==> #[trigger] slots[i].1 == i * 8
}

/// Slots for `names` in order: the `i`-th at offset `8 i`.
pub open spec fn layout_slots(names: Seq<Seq<char>>) -> Seq<(Seq<char>, i32)> {
    names.map(|i: int, n: Seq<char>| (n, (i * 8) as i32))
}

/// The assembly text generator's state.
pub struct Arm64CodeGen {
    output: Vec<Vec<char>>,
    label_counter: usize,
    stack_offset: i32,
    var_offsets: NameMap<i32>,
    string_labels: NameMap<String>,
    epilogue_label: Vec<char>,
}

impl Arm64CodeGen {
    /// The frame's map of offsets is that of its slots; there are as many
    /// offsets as slots, each below eight times their number (a fact only:
    /// nothing runs).
    pub fn frame_facts(&self)
        requires
            dense(self.slots()),
        ensures
            self.offsets() == crate::name_map::map_of(self.slots()),
            self.offsets().dom().finite(),
            self.offsets().len() == self.slots().len(),
            forall|k: Seq<char>| #[trigger] self.offsets().contains_key(k) ==> 0 <= self.offsets()[k] < self.offsets().len() * 8,
    {
        self.var_offsets.names_are_distinct();
        proof {
            crate::name_map::lemma_len_of_distinct(self.slots());
            crate::name_map::lemma_map_of_finite(self.slots());
            assert forall|k: Seq<char>| #[trigger] self.offsets().contains_key(k) implies 0 <= self.offsets()[k] < self.offsets().len() * 8 by {
                let s = self.slots();
                let j = crate::name_map::name_index(s, k);
                crate::name_map::lemma_map_of_at(s, j);
            }
        }
    }

    /// How many labels were handed out.
    pub fn label_count(&self) -> (n: usize)
        ensures
            n == self.labels_made(),
    {
        self.label_counter
    }

    /// The text written so far.
    pub closed spec fn text(&self) -> Seq<char> {
        line_text(self.lines())
    }

    /// How many labels were handed out.
    pub closed spec fn labels_made(&self) -> nat {
        self.label_counter as nat
    }

    /// The frame size of the current function.
    pub closed spec fn frame(&self) -> i32 {
        self.stack_offset
    }

    /// Each variable's offset from the stack pointer.
    pub closed spec fn offsets(&self) -> Map<Seq<char>, i32> {
        self.var_offsets@
    }

    /// The variables with an offset, in the order they got one.
    pub closed spec fn variables(&self) -> Seq<Seq<char>> {
        self.var_offsets.names()
    }

    /// The label of the current function's epilogue.
    pub closed spec fn epilogue(&self) -> Seq<char> {
        self.epilogue_label@
    }

    /// The lines written so far, in order.
    pub closed spec fn lines(&self) -> Seq<Seq<char>> {
        crate::chars::views(self.output@)
    }

    /// The frame's slots: each variable with its offset, in the order they
    /// got one.
    pub closed spec fn slots(&self) -> Seq<(Seq<char>, i32)> {
        self.var_offsets.pairs()
    }

    /// The data label of each string literal.
    pub closed spec fn strings(&self) -> Map<Seq<char>, Seq<char>> {
        self.string_labels@.map_values(|l: String| l@)
    }

    /// A generator with no output, no labels and an empty frame.
    pub fn new() -> (g: Self)
        ensures
            g.text() == Seq::<char>::empty(),
            g.labels_made() == 0,
            g.frame() == 0,
            g.offsets() == Map::<Seq<char>, i32>::empty(),
            g.epilogue() == Seq::<char>::empty(),
            g.lines() == Seq::<Seq<char>>::empty(),
            g.strings() == Map::<Seq<char>, Seq<char>>::empty(),
    {
        let g = Arm64CodeGen {
            output: Vec::new(),
            label_counter: 0,
            stack_offset: 0,
            var_offsets: NameMap::new(),
            string_labels: NameMap::new(),
            epilogue_label: Vec::new(),
        };
        assert(g.strings() =~= Map::<Seq<char>, Seq<char>>::empty());
        g
    }

    /// The text written so far.
    pub fn output(&self) -> (s: String)
        ensures
            s@ == self.text(),
    {
        let mut v: Vec<char> = Vec::new();
        let n = self.output.len();
        assert(self.lines().take(0) =~= Seq::<Seq<char>>::empty());
        for i in 0..n
            invariant
                n == self.output@.len(),
                v@ == line_text(self.lines().take(i as int)),
        {
            append_chars(&mut v, self.output[i].as_slice());
            v.push('\n');
            assert(self.lines().take(i + 1).drop_last() =~= self.lines().take(i as int));
            assert(self.lines().take(i + 1).last() == self.output@[i as int]@);
        }
        assert(self.lines().take(n as int) =~= self.lines());
        string_of(v.as_slice())
    }

    /// Appends the characters of `line` and a line feed.
    fn emit_chars(&mut self, line: &[char])
        ensures
            final(self).text() == old(self).text() + line@ + seq!['\n'],
            final(self).var_offsets.pairs() == old(self).var_offsets.pairs(),
            final(self).labels_made() == old(self).labels_made(),
            final(self).frame() == old(self).frame(),
            final(self).offsets() == old(self).offsets(),
            final(self).variables() == old(self).variables(),
            final(self).epilogue() == old(self).epilogue(),
            final(self).lines() == old(self).lines().push(line@),
            final(self).strings() == old(self).strings(),
            final(self).slots() == old(self).slots(),
    {
        let mut v: Vec<char> = Vec::new();
        append_chars(&mut v, line);
        let ghost before = self.lines();
        self.output.push(v);
        assert(self.lines() =~= before.push(line@));
        assert(self.lines().drop_last() =~= before);
    }

    /// Appends `line` and a line feed.
    pub fn emit(&mut self, line: &str)
        ensures
            final(self).text() == old(self).text() + line@ + seq!['\n'],
            final(self).labels_made() == old(self).labels_made(),
            final(self).frame() == old(self).frame(),
            final(self).offsets() == old(self).offsets(),
            final(self).variables() == old(self).variables(),
            final(self).epilogue() == old(self).epilogue(),
            final(self).lines() == old(self).lines().push(line@),
            final(self).strings() == old(self).strings(),
            final(self).slots() == old(self).slots(),
    {
        let v = chars_of(line);
        self.emit_chars(v.as_slice());
    }

    /// A label not handed out before: `.L<n>`.
    pub fn fresh_label(&mut self) -> (r: String)
        requires
            old(self).labels_made() < usize::MAX,
        ensures
            r@ == ".L"@ + decimal(old(self).labels_made()),
            final(self).labels_made() == old(self).labels_made() + 1,
            final(self).text() == old(self).text(),
            final(self).frame() == old(self).frame(),
            final(self).offsets() == old(self).offsets(),
            final(self).variables() == old(self).variables(),
            final(self).epilogue() == old(self).epilogue(),
            final(self).lines() == old(self).lines(),
            final(self).strings() == old(self).strings(),
            final(self).slots() == old(self).slots(),
    {
        let mut v = chars_of(".L");
        let d = decimal_chars(self.label_counter as u64);
        append_chars(&mut v, d.as_slice());
        self.label_counter = self.label_counter + 1;
        string_of(v.as_slice())
    }

    /// Starts a function: a fresh label for its epilogue.
    pub fn begin_function(&mut self)
        requires
            old(self).labels_made() < usize::MAX,
        ensures
            final(self).epilogue() == ".L"@ + decimal(old(self).labels_made()),
            final(self).labels_made() == old(self).labels_made() + 1,
            final(self).text() == old(self).text(),
            final(self).frame() == old(self).frame(),
            final(self).offsets() == old(self).offsets(),
            final(self).variables() == old(self).variables(),
            final(self).lines() == old(self).lines(),
            final(self).strings() == old(self).strings(),
            final(self).slots() == old(self).slots(),
    {
        let l = self.fresh_label();
        self.epilogue_label = chars_of(l.as_str());
    }

    /// `name` with every `-` made `_`.
    pub fn sanitize(&self, name: &str) -> (r: String)
        ensures
            r@ == name@.map_values(|c: char| if c == '-' { '_' } else { c }),
    {
        let v = chars_of(name);
        let mut out: Vec<char> = Vec::new();
        for i in 0..v.len()
            invariant
                v@ == name@,
                out@ == name@.take(i as int).map_values(|c: char| if c == '-' { '_' } else { c }),
        {
            let c = v[i];
            out.push(if c == '-' { '_' } else { c });
            assert(name@.take(i + 1).map_values(|c: char| if c == '-' { '_' } else { c }) =~= name@.take(
                i as int,
            ).map_values(|c: char| if c == '-' { '_' } else { c }).push(if c == '-' { '_' } else { c }));
        }
        assert(name@.take(name@.len() as int) =~= name@);
        string_of(out.as_slice())
    }

    /// Lays out a frame for the parameters, then the given destinations,
    /// each in the first place it appears: offsets 0, 8, 16, ...; the frame
    /// is their size rounded up to 16 bytes.
    fn lay_out_frame(&mut self, dests: &[String], params: &[String])
        requires
            (params@.len() + dests@.len()) * 8 + 15 <= i32::MAX,
        ensures
            final(self).variables() == first_seen(
                params@.map_values(|s: String| s@) + dests@.map_values(|s: String| s@),
            ),
            forall|i: int| 0 <= i < final(self).variables().len() ==> #[trigger] final(self).offsets()[final(self).variables()[i]] == i * 8,
            final(self).offsets().dom() == final(self).variables().to_set(),
            final(self).frame() == (final(self).variables().len() * 8 + 15) / 16 * 16,
            final(self).text() == old(self).text(),
            final(self).labels_made() == old(self).labels_made(),
            final(self).epilogue() == old(self).epilogue(),
            final(self).lines() == old(self).lines(),
            final(self).strings() == old(self).strings(),
            final(self).slots() == layout_slots(final(self).variables()),
    {
        let ghost all = params@.map_values(|s: String| s@) + dests@.map_values(|s: String| s@);
        let total = params.len() + dests.len();
        self.var_offsets.clear();
        let mut k: usize = 0;
        assert(all.take(0) =~= Seq::<Seq<char>>::empty());
        assert(self.var_offsets.names() =~= Seq::<Seq<char>>::empty());
        while k < total
            invariant
                k <= total,
                total == params@.len() + dests@.len(),
                all == params@.map_values(|s: String| s@) + dests@.map_values(|s: String| s@),
                total * 8 + 15 <= i32::MAX,
                self.var_offsets.names() == first_seen(all.take(k as int)),
                self.var_offsets.names().len() <= k,
                forall|i: int| 0 <= i < self.var_offsets.names().len() ==> #[trigger] self.var_offsets@[self.var_offsets.names()[i]] == i * 8,
                self.var_offsets@.dom() == self.var_offsets.names().to_set(),
                self.output@ == old(self).output@,
                self.label_counter == old(self).label_counter,
                self.epilogue_label@ == old(self).epilogue_label@,
                self.lines() == old(self).lines(),
                self.strings() == old(self).strings(),
                self.var_offsets.pairs() == layout_slots(self.var_offsets.names()),
            decreases total - k,
        {
            let name: &String = if k < params.len() { &params[k] } else { &dests[k - params.len()] };
            assert(name@ == all[k as int]);
            let ghost before = self.var_offsets.names();
            assert(all.take(k + 1).drop_last() =~= all.take(k as int));
            proof { crate::name_map::lemma_names_dom(&self.var_offsets); }
            if !self.var_offsets.contains_key(name.as_str()) {
                let n = self.var_offsets.len();
                let off: i32 = (n * 8) as i32;
                self.var_offsets.insert(name.clone(), off);
                proof {
                    crate::name_map::lemma_names_dom(&self.var_offsets);
                    assert(self.var_offsets.names() == before.push(name@));
                    assert(self.var_offsets@.dom() =~= self.var_offsets.names().to_set()) by {
                        assert forall|x: Seq<char>| self.var_offsets@.dom().contains(x) == self.var_offsets.names().to_set().contains(x) by {
                            assert(self.var_offsets@.contains_key(x) == self.var_offsets.names().contains(x));
                        }
                    }
                    assert forall|i: int| 0 <= i < self.var_offsets.names().len() implies #[trigger] self.var_offsets@[self.var_offsets.names()[i]] == i * 8 by {
                        if i < before.len() {
                            assert(self.var_offsets.names()[i] == before[i]);
                            assert(before[i] != name@) by {
                                assert(!before.contains(name@));
                            }
                        }
                    }
                }
            } else {
                assert(before.contains(name@));
            }
            k = k + 1;
        }
        assert(all.take(total as int) =~= all);
        let n = self.var_offsets.len();
        let size: i32 = (n * 8) as i32;
        self.stack_offset = (size + 15) / 16 * 16;
    }

    /// The offset of `var` in the frame, if it has one.
    fn offset_of(&self, var: &str) -> (r: Option<i32>)
        ensures
            match r {
                Some(o) => self.offsets().contains_key(var@) && o == self.offsets()[var@],
                None => !self.offsets().contains_key(var@),
            },
    {
        match self.var_offsets.get(var) {
            Some(o) => Some(*o),
            None => None,
        }
    }
}


/// `a`, the decimal form of `n`, then `b`.
fn numbered_line(a: &str, n: i64, b: &str) -> (r: Vec<char>)
    ensures
        r@ == a@ + signed_decimal(n as int) + b@,
{
    let mut v = chars_of(a);
    let t = i64_to_text(n);
    let tc = chars_of(t.as_str());
    append_chars(&mut v, tc.as_slice());
    let bc = chars_of(b);
    append_chars(&mut v, bc.as_slice());
    v
}

/// Adds the characters of a literal line to `lines`.
pub fn push_line(lines: &mut Vec<Vec<char>>, l: &str)
    ensures
        crate::chars::views(final(lines)@) == crate::chars::views(old(lines)@).push(l@),
{
    let ghost prev = lines@;
    lines.push(chars_of(l));
    assert(crate::chars::views(lines@) =~= crate::chars::views(prev).push(l@));
}

/// Adds a built line to `lines`.
pub fn push_built(lines: &mut Vec<Vec<char>>, l: Vec<char>)
    ensures
        crate::chars::views(final(lines)@) == crate::chars::views(old(lines)@).push(l@),
{
    let ghost prev = lines@;
    let ghost lv = l@;
    lines.push(l);
    assert(crate::chars::views(lines@) =~= crate::chars::views(prev).push(lv));
}

/// Sorts offsets in increasing order.
fn sort_offsets(v: Vec<i32>) -> (r: Vec<i32>)
    ensures
        r@ == v@.sort_by(offset_leq()),
{
    broadcast use vstd::seq_lib::group_to_multiset_ensures;
    let mut out: Vec<i32> = Vec::new();
    assert(v@.take(0) =~= Seq::<i32>::empty());
    assert(out@ =~= Seq::<i32>::empty());
    for i in 0..v.len()
        invariant
            forall|a: int, b: int| 0 <= a < b < out@.len() ==> #[trigger] out@[a] <= #[trigger] out@[b],
            out@.to_multiset() == v@.take(i as int).to_multiset(),
    {
        let x = v[i];
        let mut j: usize = 0;
        while j < out.len() && out[j] <= x
            invariant
                j <= out@.len(),
                forall|k: int| 0 <= k < j ==> out@[k] <= x,
            decreases out.len() - j,
        {
            j = j + 1;
        }
        let ghost before = out@;
        out.insert(j, x);
        proof {
            broadcast use vstd::seq_lib::to_multiset_insert;
            assert(out@ == before.insert(j as int, x));
            assert(v@.take(i + 1) =~= v@.take(i as int).push(x));
            vstd::seq_lib::lemma_multiset_commutative(v@.take(i as int), seq![x]);
            broadcast use vstd::seq_lib::group_to_multiset_ensures;
            assert(v@.take(i + 1).to_multiset() =~= v@.take(i as int).to_multiset().insert(x)) by {
                broadcast use vstd::multiset::group_multiset_axioms;
                assert(seq![x].to_multiset() =~= vstd::multiset::Multiset::singleton(x));
            }
            assert forall|a: int, b: int| 0 <= a < b < out@.len() implies #[trigger] out@[a] <= #[trigger] out@[b] by {
                if b < j {
                    assert(before[a] <= before[b]);
                } else if a > j {
                    assert(before[a - 1] <= before[b - 1]);
                } else if a == j {
                    if b - 1 < before.len() && j < before.len() {
                        assert(!(before[j as int] <= x));
                        assert(before[j as int] <= before[b - 1]);
                    }
                } else {
                    assert(before[a] <= x);
                }
            }
        }
    }
    proof {
        assert(v@.take(v@.len() as int) =~= v@);
        let leq = offset_leq();
        assert(sorted_by(out@, leq)) by {
            assert forall|a: int, b: int| 0 <= a < b < out@.len() implies leq(out@[a], out@[b]) by {
                assert(out@[a] <= out@[b]);
            }
        }
        assert(vstd::relations::total_ordering(leq));
        v@.lemma_sort_by_ensures(leq);
        vstd::seq_lib::lemma_sorted_unique(out@, v@.sort_by(leq), leq);
    }
    out
}

impl Arm64CodeGen {
    /// The offsets of the frame's variables in increasing order.
    pub closed spec fn sorted_offsets(&self) -> Seq<i32> {
        self.var_offsets.pairs().map_values(|p: (Seq<char>, i32)| p.1).sort_by(offset_leq())
    }

    /// Appends each line of `lines` with a line feed.
    pub fn emit_lines(&mut self, lines: &Vec<Vec<char>>)
        ensures
            final(self).text() == old(self).text() + line_text(crate::chars::views(lines@)),
            final(self).labels_made() == old(self).labels_made(),
            final(self).frame() == old(self).frame(),
            final(self).offsets() == old(self).offsets(),
            final(self).variables() == old(self).variables(),
            final(self).epilogue() == old(self).epilogue(),
            final(self).sorted_offsets() == old(self).sorted_offsets(),
            final(self).lines() == old(self).lines() + crate::chars::views(lines@),
            final(self).strings() == old(self).strings(),
            final(self).slots() == old(self).slots(),
    {
        let ghost ls = crate::chars::views(lines@);
        for i in 0..lines.len()
            invariant
                ls == crate::chars::views(lines@),
                self.text() == old(self).text() + line_text(ls.take(i as int)),
                self.labels_made() == old(self).labels_made(),
                self.frame() == old(self).frame(),
                self.offsets() == old(self).offsets(),
                self.variables() == old(self).variables(),
                self.epilogue() == old(self).epilogue(),
                self.var_offsets.pairs() == old(self).var_offsets.pairs(),
                self.lines() == old(self).lines() + ls.take(i as int),
                self.strings() == old(self).strings(),
        {
            assert(ls.take(i + 1).drop_last() =~= ls.take(i as int));
            assert(ls.take(i + 1).last() == lines@[i as int]@);
            self.emit_chars(lines[i].as_slice());
        }
        assert(ls.take(ls.len() as int) =~= ls);
    }

    /// Writes the prologue: frame pointer and link register saved, the
    /// frame reserved and zeroed slot by slot, and the first eight
    /// parameters stored in their slots.
    pub fn generate_function_prologue(&mut self, params: &[String])
        requires
            forall|i: int| 0 <= i < params@.len() && i < 8 ==> old(self).offsets().contains_key(#[trigger] params@[i]@),
        ensures
            final(self).text() == old(self).text() + line_text(
                prologue_lines(old(self).frame(), params@.map_values(|s: String| s@), old(self).offsets()),
            ),
            final(self).labels_made() == old(self).labels_made(),
            final(self).frame() == old(self).frame(),
            final(self).offsets() == old(self).offsets(),
            final(self).variables() == old(self).variables(),
            final(self).epilogue() == old(self).epilogue(),
            final(self).sorted_offsets() == old(self).sorted_offsets(),
            final(self).lines() == old(self).lines() + prologue_lines(old(self).frame(), params@.map_values(|s: String| s@), old(self).offsets()),
            final(self).strings() == old(self).strings(),
            final(self).slots() == old(self).slots(),
    {
        let ghost ps = params@.map_values(|s: String| s@);
        let ghost offs = self.offsets();
        let frame = self.stack_offset;
        let mut lines: Vec<Vec<char>> = Vec::new();
        push_line(&mut lines, "    stp x29, x30, [sp, #-16]!");
        push_line(&mut lines, "    mov x29, sp");
        let ghost head = seq!["    stp x29, x30, [sp, #-16]!"@, "    mov x29, sp"@];
        assert(crate::chars::views(lines@) =~= head);
        if frame > 0 {
            push_built(&mut lines, numbered_line("    sub sp, sp, #", frame as i64, ""));
            proof { reveal_strlit(""); }
            let ghost mid = head + seq!["    sub sp, sp, #"@ + signed_decimal(frame as int)];
            assert(crate::chars::views(lines@) =~= mid + zero_slot_lines(0));
            let slots = frame / 8;
            let mut i: i32 = 0;
            while i < slots
                invariant
                    0 <= i <= slots,
                    slots == frame / 8,
                    frame > 0,
                    crate::chars::views(lines@) == mid + zero_slot_lines(i as int),
                decreases slots - i,
            {
                push_built(&mut lines, numbered_line("    str xzr, [sp, #", (i * 8) as i64, "]"));
                assert(mid + zero_slot_lines(i + 1) =~= (mid + zero_slot_lines(i as int)).push(
                    "    str xzr, [sp, #"@ + signed_decimal(i * 8) + "]"@,
                ));
                i = i + 1;
            }
        }
        let ghost body = crate::chars::views(lines@);
        assert(body == seq!["    stp x29, x30, [sp, #-16]!"@, "    mov x29, sp"@] + (if frame > 0 {
            seq!["    sub sp, sp, #"@ + signed_decimal(frame as int)] + zero_slot_lines(frame / 8)
        } else {
            seq![]
        })) by {
            if frame <= 0 {
                assert(head + Seq::<Seq<char>>::empty() =~= head);
            } else {
                assert(head + seq!["    sub sp, sp, #"@ + signed_decimal(frame as int)] + zero_slot_lines(frame / 8) =~= head
                    + (seq!["    sub sp, sp, #"@ + signed_decimal(frame as int)] + zero_slot_lines(frame / 8)));
            }
        }
        let n = if params.len() < 8 { params.len() } else { 8 };
        assert(body + param_store_lines(ps, offs, 0) =~= body);
        for k in 0..n
            invariant
                n <= params@.len(),
                n <= 8,
                ps == params@.map_values(|s: String| s@),
                offs == self.offsets(),
                forall|i: int| 0 <= i < params@.len() && i < 8 ==> offs.contains_key(#[trigger] params@[i]@),
                crate::chars::views(lines@) == body + param_store_lines(ps, offs, k as int),
        {
            let name = &params[k];
            assert(ps[k as int] == name@);
            let off = self.offset_of(name.as_str()).unwrap();
            let mut l = chars_of("    str x");
            let d = decimal_chars(k as u64);
            append_chars(&mut l, d.as_slice());
            let rest = numbered_line(", [sp, #", off as i64, "]");
            append_chars(&mut l, rest.as_slice());
            assert(off == offs[ps[k as int]]);
            let ghost lv = l@;
            assert(lv =~= "    str x"@ + decimal(k as nat) + ", [sp, #"@ + signed_decimal(offs[ps[k as int]] as int) + "]"@);
            push_built(&mut lines, l);
            assert(body + param_store_lines(ps, offs, k + 1) =~= (body + param_store_lines(ps, offs, k as int)).push(
                "    str x"@ + decimal(k as nat) + ", [sp, #"@ + signed_decimal(offs[ps[k as int]] as int) + "]"@,
            ));
        }
        assert(crate::chars::views(lines@) == prologue_lines(frame, ps, offs));
        self.emit_lines(&lines);
    }
}


impl Arm64CodeGen {
    /// The offsets of the frame's variables, in entry order.
    fn offset_values(&self) -> (r: Vec<i32>)
        ensures
            r@ == self.var_offsets.pairs().map_values(|p: (Seq<char>, i32)| p.1),
            forall|i: int| 0 <= i < r@.len() ==> self.offsets().contains_key(self.var_offsets.pairs()[i].0)
                && #[trigger] r@[i] == self.offsets()[self.var_offsets.pairs()[i].0],
    {
        let n = self.var_offsets.len();
        let mut out: Vec<i32> = Vec::new();
        for i in 0..n
            invariant
                n == self.var_offsets.pairs().len(),
                out@ == self.var_offsets.pairs().map_values(|p: (Seq<char>, i32)| p.1).take(i as int),
                forall|j: int| 0 <= j < i ==> self.offsets().contains_key(self.var_offsets.pairs()[j].0)
                    && #[trigger] out@[j] == self.offsets()[self.var_offsets.pairs()[j].0],
        {
            let v = *self.var_offsets.value_at(i);
            out.push(v);
            assert(self.var_offsets.pairs().map_values(|p: (Seq<char>, i32)| p.1).take(i + 1) =~= self.var_offsets.pairs().map_values(
                |p: (Seq<char>, i32)| p.1,
            ).take(i as int).push(v));
        }
        assert(self.var_offsets.pairs().map_values(|p: (Seq<char>, i32)| p.1).take(n as int) =~= self.var_offsets.pairs().map_values(
            |p: (Seq<char>, i32)| p.1,
        ));
        out
    }

    /// Writes the epilogue: the epilogue label, the return value saved, a
    /// release call for each slot in increasing offset order, the return
    /// value restored, the frame freed, and the return.
    pub fn generate_function_epilogue(&mut self)
        requires
            forall|k: Seq<char>| #[trigger] old(self).offsets().contains_key(k) ==> old(self).offsets()[k] <= i32::MAX - 16,
        ensures
            final(self).text() == old(self).text() + line_text(
                epilogue_lines(old(self).epilogue(), old(self).frame(), old(self).sorted_offsets()),
            ),
            final(self).labels_made() == old(self).labels_made(),
            final(self).frame() == old(self).frame(),
            final(self).offsets() == old(self).offsets(),
            final(self).variables() == old(self).variables(),
            final(self).epilogue() == old(self).epilogue(),
            final(self).lines() == old(self).lines() + epilogue_lines(old(self).epilogue(), old(self).frame(), old(self).sorted_offsets()),
            final(self).strings() == old(self).strings(),
            final(self).slots() == old(self).slots(),
    {
        let vals = self.offset_values();
        proof {
            assert forall|i: int| 0 <= i < vals@.len() implies vals@[i] <= i32::MAX - 16 by {
                assert(self.offsets().contains_key(self.var_offsets.pairs()[i].0));
            }
        }
        let ghost unsorted = vals@;
        let sorted = sort_offsets(vals);
        proof {
            let leq = offset_leq();
            assert(vstd::relations::total_ordering(leq));
            unsorted.lemma_sort_by_ensures(leq);
            broadcast use vstd::seq_lib::group_to_multiset_ensures;
            assert forall|i: int| 0 <= i < sorted@.len() implies sorted@[i] <= i32::MAX - 16 by {
                assert(sorted@.to_multiset().count(sorted@[i]) > 0);
                assert(unsorted.to_multiset().count(sorted@[i]) > 0);
                assert(unsorted.contains(sorted@[i]));
            }
        }
        let mut lines: Vec<Vec<char>> = Vec::new();
        let mut head = self.epilogue_label.clone();
        head.push(':');
        proof {
            reveal_strlit(":");
            assert(head@ =~= self.epilogue() + ":"@);
        }
        push_built(&mut lines, head);
        push_line(&mut lines, "    sub sp, sp, #16");
        push_line(&mut lines, "    str x0, [sp, #0]");
        let ghost start = crate::chars::views(lines@);
        assert(start =~= seq![self.epilogue() + ":"@, "    sub sp, sp, #16"@, "    str x0, [sp, #0]"@]);
        assert(start + release_lines(sorted@.take(0)) =~= start) by {
            assert(sorted@.take(0) =~= Seq::<i32>::empty());
        }
        for i in 0..sorted.len()
            invariant
                forall|j: int| 0 <= j < sorted@.len() ==> sorted@[j] <= i32::MAX - 16,
                crate::chars::views(lines@) == start + release_lines(sorted@.take(i as int)),
        {
            let o = sorted[i];
            push_built(&mut lines, numbered_line("    ldr x0, [sp, #", (o + 16) as i64, "]"));
            push_line(&mut lines, "    bl _dec_rc");
            assert(sorted@.take(i + 1).drop_last() =~= sorted@.take(i as int));
            assert(start + release_lines(sorted@.take(i + 1)) =~= (start + release_lines(sorted@.take(i as int))).push(
                "    ldr x0, [sp, #"@ + signed_decimal(o + 16) + "]"@,
            ).push("    bl _dec_rc"@));
        }
        assert(sorted@.take(sorted@.len() as int) =~= sorted@);
        let ghost mid = start + release_lines(sorted@);
        push_line(&mut lines, "    ldr x0, [sp, #0]");
        push_line(&mut lines, "    add sp, sp, #16");
        let ghost mid2 = mid + seq!["    ldr x0, [sp, #0]"@, "    add sp, sp, #16"@];
        assert(crate::chars::views(lines@) =~= mid2);
        let frame = self.stack_offset;
        let ghost tail = if frame > 0 {
            seq!["    add sp, sp, #"@ + signed_decimal(frame as int)]
        } else {
            Seq::<Seq<char>>::empty()
        };
        if frame > 0 {
            proof { reveal_strlit(""); }
            push_built(&mut lines, numbered_line("    add sp, sp, #", frame as i64, ""));
            assert(crate::chars::views(lines@) =~= mid2 + tail);
        } else {
            assert(crate::chars::views(lines@) =~= mid2 + tail);
        }
        push_line(&mut lines, "    ldp x29, x30, [sp], #16");
        push_line(&mut lines, "    ret");
        assert(crate::chars::views(lines@) =~= mid2 + tail + seq!["    ldp x29, x30, [sp], #16"@, "    ret"@]);
        assert(crate::chars::views(lines@) =~= epilogue_lines(self.epilogue(), frame, self.sorted_offsets()));
        self.emit_lines(&lines);
    }

    /// Loads `var` into `reg` from its slot; a variable without a slot
    /// gets a warning comment and `mov <reg>, #0`.
    pub fn load_var(&mut self, reg: &str, var: &str)
        ensures
            final(self).text() == old(self).text() + if old(self).offsets().contains_key(var@) {
                line_text(seq!["    ldr "@ + reg@ + ", [sp, #"@ + signed_decimal(old(self).offsets()[var@] as int) + "]"@])
            } else {
                line_text(seq![
                    "    // Warning: variable "@ + var@ + " not found in stack frame"@,
                    "    mov "@ + reg@ + ", #0"@,
                ])
            },
            final(self).labels_made() == old(self).labels_made(),
            final(self).frame() == old(self).frame(),
            final(self).offsets() == old(self).offsets(),
            final(self).variables() == old(self).variables(),
            final(self).epilogue() == old(self).epilogue(),
            final(self).lines() == old(self).lines() + if old(self).offsets().contains_key(var@) {
                seq!["    ldr "@ + reg@ + ", [sp, #"@ + signed_decimal(old(self).offsets()[var@] as int) + "]"@]
            } else {
                seq![
                    "    // Warning: variable "@ + var@ + " not found in stack frame"@,
                    "    mov "@ + reg@ + ", #0"@,
                ]
            },
            final(self).strings() == old(self).strings(),
            final(self).slots() == old(self).slots(),
    {
        let mut lines: Vec<Vec<char>> = Vec::new();
        match self.offset_of(var) {
            Some(off) => {
                let mut l = chars_of("    ldr ");
                let r = chars_of(reg);
                append_chars(&mut l, r.as_slice());
                let rest = numbered_line(", [sp, #", off as i64, "]");
                append_chars(&mut l, rest.as_slice());
                let ghost lv = l@;
                assert(lv =~= "    ldr "@ + reg@ + ", [sp, #"@ + signed_decimal(off as int) + "]"@);
                push_built(&mut lines, l);
                assert(crate::chars::views(lines@) =~= seq![lv]);
            },
            None => {
                let mut a = chars_of("    // Warning: variable ");
                let vc = chars_of(var);
                append_chars(&mut a, vc.as_slice());
                let tail = chars_of(" not found in stack frame");
                append_chars(&mut a, tail.as_slice());
                let ghost av = a@;
                assert(av =~= "    // Warning: variable "@ + var@ + " not found in stack frame"@);
                push_built(&mut lines, a);
                let mut b = chars_of("    mov ");
                let r = chars_of(reg);
                append_chars(&mut b, r.as_slice());
                let z = chars_of(", #0");
                append_chars(&mut b, z.as_slice());
                let ghost bv = b@;
                assert(bv =~= "    mov "@ + reg@ + ", #0"@);
                push_built(&mut lines, b);
                assert(crate::chars::views(lines@) =~= seq![av, bv]);
            },
        }
        self.emit_lines(&lines);
    }

    /// Stores `reg` into the slot of `var`; a variable without a slot first
    /// gets the next one (8 bytes per variable already laid out).
    pub fn store_var(&mut self, var: &str, reg: &str)
        requires
            !old(self).offsets().contains_key(var@) ==> old(self).offsets().len() * 8 <= i32::MAX,
        ensures
            old(self).offsets().contains_key(var@) ==> final(self).offsets() == old(self).offsets(),
            !old(self).offsets().contains_key(var@) ==> final(self).offsets() == old(self).offsets().insert(
                var@,
                (old(self).offsets().len() * 8) as i32,
            ),
            final(self).text() == old(self).text() + line_text(
                seq!["    str "@ + reg@ + ", [sp, #"@ + signed_decimal(final(self).offsets()[var@] as int) + "]"@],
            ),
            final(self).labels_made() == old(self).labels_made(),
            final(self).frame() == old(self).frame(),
            final(self).epilogue() == old(self).epilogue(),
            final(self).lines() == old(self).lines() + seq!["    str "@ + reg@ + ", [sp, #"@ + signed_decimal(final(self).offsets()[var@] as int) + "]"@],
            final(self).strings() == old(self).strings(),
            old(self).offsets().contains_key(var@) ==> final(self).slots() == old(self).slots(),
            !old(self).offsets().contains_key(var@) ==> final(self).slots() == old(self).slots().push((var@, (old(self).offsets().len() * 8) as i32)),
    {
        let off = match self.offset_of(var) {
            Some(o) => o,
            None => {
                let n = self.var_offsets.len();
                let o: i32 = (n * 8) as i32;
                self.var_offsets.insert(var.to_owned(), o);
                o
            },
        };
        let mut lines: Vec<Vec<char>> = Vec::new();
        let mut l = chars_of("    str ");
        let r = chars_of(reg);
        append_chars(&mut l, r.as_slice());
        let rest = numbered_line(", [sp, #", off as i64, "]");
        append_chars(&mut l, rest.as_slice());
        assert(off == self.offsets()[var@]);
        let ghost lv = l@;
        assert(lv =~= "    str "@ + reg@ + ", [sp, #"@ + signed_decimal(off as int) + "]"@);
        push_built(&mut lines, l);
        assert(crate::chars::views(lines@) =~= seq![lv]);
        self.emit_lines(&lines);
    }
}


/// The name an instruction writes that gets a slot in the frame, if any.
pub open spec fn frame_dest(i: InstrView) -> Option<Seq<char>> {
    match i {
        InstrView::LoadConst { dest, .. } | InstrView::Move { dest, .. } | InstrView::Add { dest, .. }
        | InstrView::Sub { dest, .. } | InstrView::Mul { dest, .. } | InstrView::Div { dest, .. }
        | InstrView::AllocList { dest, .. } | InstrView::AllocMap { dest } | InstrView::GetIndex { dest, .. }
        | InstrView::Input { dest, .. } | InstrView::Eq { dest, .. } | InstrView::Ne { dest, .. }
        | InstrView::Lt { dest, .. } | InstrView::Gt { dest, .. } | InstrView::LogicAnd { dest, .. }
        | InstrView::LogicOr { dest, .. } | InstrView::LogicNot { dest, .. } | InstrView::FAdd { dest, .. }
        | InstrView::FSub { dest, .. } | InstrView::FMul { dest, .. } | InstrView::FDiv { dest, .. }
        | InstrView::BitAnd { dest, .. } | InstrView::BitOr { dest, .. } | InstrView::BitXor { dest, .. }
        | InstrView::BitNot { dest, .. } | InstrView::Shl { dest, .. } | InstrView::Shr { dest, .. }
        | InstrView::AllocStruct { dest, .. } | InstrView::GetMember { dest, .. } | InstrView::Await { dest, .. }
        | InstrView::AllocFile { dest, .. } => Some(dest),
        InstrView::Call { dest: Some(d), .. } => Some(d),
        InstrView::Spawn { task } => Some(task),
        _ => None,
    }
}

/// The names the instructions write that get frame slots, in order, with
/// repeats.
pub open spec fn frame_dests(s: Seq<InstrView>) -> Seq<Seq<char>>
    decreases s.len(),
{
    if s.len() == 0 {
        seq![]
    } else {
        frame_dests(s.drop_last()) + match frame_dest(s.last()) {
            Some(d) => seq![d],
            None => seq![],
        }
    }
}

/// The name `i` writes that gets a frame slot, if any.
fn dest_of(i: &IrInstr) -> (r: Option<String>)
    ensures
        opt_view(r) == frame_dest(i@),
{
    match i {
        IrInstr::LoadConst { dest, .. } | IrInstr::Move { dest, .. } | IrInstr::Add { dest, .. }
        | IrInstr::Sub { dest, .. } | IrInstr::Mul { dest, .. } | IrInstr::Div { dest, .. }
        | IrInstr::AllocList { dest, .. } | IrInstr::AllocMap { dest } | IrInstr::GetIndex { dest, .. }
        | IrInstr::Input { dest, .. } | IrInstr::Eq { dest, .. } | IrInstr::Ne { dest, .. }
        | IrInstr::Lt { dest, .. } | IrInstr::Gt { dest, .. } | IrInstr::LogicAnd { dest, .. }
        | IrInstr::LogicOr { dest, .. } | IrInstr::LogicNot { dest, .. } | IrInstr::FAdd { dest, .. }
        | IrInstr::FSub { dest, .. } | IrInstr::FMul { dest, .. } | IrInstr::FDiv { dest, .. }
        | IrInstr::BitAnd { dest, .. } | IrInstr::BitOr { dest, .. } | IrInstr::BitXor { dest, .. }
        | IrInstr::BitNot { dest, .. } | IrInstr::Shl { dest, .. } | IrInstr::Shr { dest, .. }
        | IrInstr::AllocStruct { dest, .. } | IrInstr::GetMember { dest, .. } | IrInstr::Await { dest, .. }
        | IrInstr::AllocFile { dest, .. } => Some(dest.clone()),
        IrInstr::Call { dest: Some(d), .. } => Some(d.clone()),
        IrInstr::Spawn { task } => Some(task.clone()),
        _ => None,
    }
}

/// The names the instructions write that get frame slots.
pub(crate) fn frame_dest_names(instrs: &[IrInstr]) -> (v: Vec<String>)
    ensures
        names_view(v@) == frame_dests(instrs_view(instrs@)),
{
    let ghost all = instrs_view(instrs@);
    let mut v: Vec<String> = Vec::new();
    assert(all.take(0) =~= Seq::<InstrView>::empty());
    for i in 0..instrs.len()
        invariant
            all == instrs_view(instrs@),
            names_view(v@) == frame_dests(all.take(i as int)),
    {
        assert(all.take(i + 1).drop_last() =~= all.take(i as int));
        assert(all.take(i + 1).last() == instrs@[i as int]@);
        let ghost before = v@;
        match dest_of(&instrs[i]) {
            Some(d) => {
                v.push(d);
                assert(names_view(v@) =~= names_view(before) + seq![v@[v@.len() - 1]@]);
            },
            None => {
                assert(names_view(v@) =~= names_view(before) + Seq::<Seq<char>>::empty());
            },
        }
    }
    assert(all.take(instrs@.len() as int) =~= all);
    v
}

impl Arm64CodeGen {
    /// Lays out the frame of a function: the parameters, then the names its
    /// instructions write, each in the first place it appears, get the
    /// offsets 0, 8, 16, ...; the frame is their size rounded up to 16
    /// bytes.
    pub fn precalculate_stack_offsets(&mut self, instructions: &[IrInstr], params: &[String])
        requires
            (params@.len() + frame_dests(instrs_view(instructions@)).len()) * 8 + 15 <= i32::MAX,
        ensures
            final(self).variables() == first_seen(
                names_view(params@) + frame_dests(instrs_view(instructions@)),
            ),
            forall|i: int| 0 <= i < final(self).variables().len() ==> #[trigger] final(self).offsets()[final(self).variables()[i]] == i * 8,
            final(self).offsets().dom() == final(self).variables().to_set(),
            final(self).frame() == (final(self).variables().len() * 8 + 15) / 16 * 16,
            final(self).text() == old(self).text(),
            final(self).labels_made() == old(self).labels_made(),
            final(self).epilogue() == old(self).epilogue(),
            final(self).lines() == old(self).lines(),
            final(self).strings() == old(self).strings(),
            final(self).slots() == layout_slots(final(self).variables()),
    {
        let dests = frame_dest_names(instructions);
        self.lay_out_frame(dests.as_slice(), params);
    }
}


impl Arm64CodeGen {
    /// The text is the lines, each followed by a line feed.
    pub proof fn lemma_text_of_lines(&self)
        ensures
            self.text() == line_text(self.lines()),
    {
    }

    /// The epilogue releases the slots in increasing offset order.
    pub proof fn lemma_sorted_offsets(&self)
        ensures
            self.sorted_offsets() == self.slots().map_values(|p: (Seq<char>, i32)| p.1).sort_by(offset_leq()),
    {
    }

    /// The data label of the string literal `text`, if it has one.
    pub fn string_label(&self, text: &str) -> (r: Option<String>)
        ensures
            match r {
                Some(l) => self.strings().contains_key(text@) && l@ == self.strings()[text@],
                None => !self.strings().contains_key(text@),
            },
    {
        match self.string_labels.get(text) {
            Some(l) => Some(l.clone()),
            None => None,
        }
    }

    /// The label of the current function's epilogue.
    pub fn epilogue_name(&self) -> (r: String)
        ensures
            r@ == self.epilogue(),
    {
        string_of(self.epilogue_label.as_slice())
    }

    /// Gives the string literal `text` the data label `label`.
    pub fn set_string_label(&mut self, text: String, label: String)
        ensures
            final(self).strings() == old(self).strings().insert(text@, label@),
            final(self).text() == old(self).text(),
            final(self).lines() == old(self).lines(),
            final(self).labels_made() == old(self).labels_made(),
            final(self).frame() == old(self).frame(),
            final(self).offsets() == old(self).offsets(),
            final(self).variables() == old(self).variables(),
            final(self).epilogue() == old(self).epilogue(),
            final(self).slots() == old(self).slots(),
    {
        let ghost k = text@;
        let ghost v = label@;
        self.string_labels.insert(text, label);
        assert(self.strings() =~= old(self).strings().insert(k, v));
    }
}

} // verus!
