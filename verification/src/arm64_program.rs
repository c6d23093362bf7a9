//! Whole programs in ARM64 assembly text: the data section with each string
//! literal as a static string object, the main function and each user
//! function with their frames, and the runtime routines.

use vstd::prelude::*;
use crate::arm64_text::{Arm64CodeGen, push_line, dense, layout_slots, first_seen, frame_dests, prologue_lines, epilogue_lines, offset_leq, line_text};
use crate::arm64_instr::{GenView, gen_view, label_at, instr_asm, asm_fits, asm_done, sanitized};
use crate::arm64_runtime::{runtime_lines, runtime_label_count};
use crate::ir::{IrInstr, IrValue, IrFunction, IrProgram, InstrView, ConstView, FunctionView, instrs_view, names_view};
use crate::name_map::map_of;
use crate::text::{concat, decimal, u64_to_text, same_text, utf8_len, byte_length};

verus! {

/// The string literal an instruction needs a data label for, if any.
pub open spec fn literal_of(i: InstrView) -> Option<Seq<char>> {
    match i {
        InstrView::LoadConst { value: ConstView::String(s), .. } => Some(s),
        InstrView::Input { prompt, .. } => Some(prompt),
        _ => None,
    }
}

/// `lits` with the literals of `is` added in order, each once.
pub open spec fn add_literals(lits: Seq<Seq<char>>, is: Seq<InstrView>) -> Seq<Seq<char>>
    decreases is.len(),
{
    if is.len() == 0 {
        lits
    } else {
        let a = add_literals(lits, is.drop_last());
        match literal_of(is.last()) {
            Some(s) => if a.contains(s) { a } else { a.push(s) },
            None => a,
        }
    }
}

/// The literals of a program: those of the top-level code, then those of
/// each function in order, each once.
pub open spec fn program_literals(global: Seq<InstrView>, fns: Seq<FunctionView>) -> Seq<Seq<char>>
    decreases fns.len(),
{
    if fns.len() == 0 {
        add_literals(seq![], global)
    } else {
        add_literals(program_literals(global, fns.drop_last()), fns.last().instructions)
    }
}

/// The data label of the `i`-th string literal.
pub open spec fn string_label_name(i: nat) -> Seq<char> {
    ".str"@ + decimal(i)
}

/// The static string object of the `i`-th literal `s`: tag, a count that is
/// never released, the length in bytes, and the text.
pub open spec fn literal_entry(i: nat, s: Seq<char>) -> Seq<Seq<char>> {
    seq![
        "    .align 3"@,
        string_label_name(i) + ":"@,
        "    .quad 3"@,
        "    .quad -1"@,
        "    .quad "@ + decimal(utf8_len(s)),
        "    .asciz \""@ + s + "\""@,
    ]
}

/// The static string objects of the literals, in order.
pub open spec fn literal_entries(lits: Seq<Seq<char>>) -> Seq<Seq<char>>
    decreases lits.len(),
{
    if lits.len() == 0 {
        seq![]
    } else {
        literal_entries(lits.drop_last()) + literal_entry((lits.len() - 1) as nat, lits.last())
    }
}

/// `strings` with each literal given its data label.
pub open spec fn literal_labels(strings: Map<Seq<char>, Seq<char>>, lits: Seq<Seq<char>>) -> Map<Seq<char>, Seq<char>>
    decreases lits.len(),
{
    if lits.len() == 0 {
        strings
    } else {
        literal_labels(strings, lits.drop_last()).insert(lits.last(), string_label_name((lits.len() - 1) as nat))
    }
}

/// Each instruction's code taken in order from state `g`, stopping at the
/// first refused instruction.
#[verifier::opaque]
pub open spec fn instrs_asm(g: GenView, is: Seq<InstrView>) -> (GenView, Seq<Seq<char>>, Option<Seq<char>>)
    decreases is.len(),
{
    if is.len() == 0 {
        (g, seq![], None)
    } else {
        let (g1, c1, r1) = instrs_asm(g, is.drop_last());
        if r1 is Some {
            (g1, c1, r1)
        } else {
            let (g2, c2, r2) = instr_asm(g1, is.last());
            (g2, c1 + c2, r2)
        }
    }
}

/// One instruction's step on the state: labels move forward by at most
/// four, at most one slot is added, at the next offset, and the epilogue
/// and the data labels stay.
pub open spec fn asm_step(a: GenView, b: GenView) -> bool {
    &&& a.labels <= b.labels <= a.labels + 4
    &&& a.epilogue == b.epilogue
    &&& a.strings == b.strings
    &&& (b.slots == a.slots || b.slots == a.slots.push((b.slots.last().0, (a.offsets.len() * 8) as i32)))
}

/// Each instruction takes such a step.
#[verifier::spinoff_prover]
#[verifier::rlimit(50)]
pub proof fn lemma_instr_asm_step(g: GenView, i: InstrView)
    ensures
        asm_step(g, instr_asm(g, i).0),
{
}

/// Whether every list literal of `is` has a buffer size that fits an `i64`.
pub open spec fn lists_fit(is: Seq<InstrView>) -> bool {
    forall|j: int| 0 <= j < is.len() && (#[trigger] is[j]) is AllocList ==> is[j]->AllocList_items.len() * 8 <= i64::MAX
}

/// A prefix that is refused gives the outcome of the whole.
pub proof fn lemma_instrs_asm_prefix(g: GenView, is: Seq<InstrView>, k: int)
    requires
        0 <= k <= is.len(),
        instrs_asm(g, is.take(k)).2 is Some,
    ensures
        instrs_asm(g, is) == instrs_asm(g, is.take(k)),
    decreases is.len() - k,
{
    reveal(instrs_asm);
    if k == is.len() {
        assert(is.take(k) =~= is);
    } else {
        assert(is.take(k + 1).drop_last() =~= is.take(k));
        lemma_instrs_asm_prefix(g, is, k + 1);
    }
}

} // verus!

verus! {

/// Part 1 of the fixed data every assembly file starts with.
pub open spec fn data_header_part_1() -> Seq<Seq<char>> {
    seq![
        "    .align 3"@,
        ".newline:"@,
        "    .asciz \"\\n\""@,
        "    .global .newline"@,
        "    .align 3"@,
        ".fmt_int:"@,
        "    .asciz \"%ld\\n\""@,
        "    .global .fmt_int"@,
        "    .align 3"@,
        ".fmt_int_raw:"@,
        "    .asciz \"%ld\""@,
        "    .global .fmt_int_raw"@,
        "    .align 3"@,
        ".list_start:"@,
        "    .asciz \"[\""@,
        "    .global .list_start"@,
        "    .align 3"@,
        ".list_end:"@,
        "    .asciz \"]\""@,
        "    .global .list_end"@,
        "    .align 3"@,
        ".map_start:"@,
        "    .asciz \"{\""@,
        "    .global .map_start"@,
        "    .align 3"@,
        ".map_end:"@,
        "    .asciz \"}\""@,
        "    .global .map_end"@,
        "    .align 3"@,
        ".comma_space:"@,
        "    .asciz \", \""@,
        "    .global .comma_space"@,
        "    .align 3"@,
    ]
}

/// Part 2 of the fixed data every assembly file starts with.
pub open spec fn data_header_part_2() -> Seq<Seq<char>> {
    seq![
        ".colon_space:"@,
        "    .asciz \": \""@,
        "    .global .colon_space"@,
        "    .align 3"@,
        ".t_number:"@,
        "    .quad 3"@,
        "    .quad -1"@,
        "    .quad 6"@,
        "    .asciz \"number\""@,
        "    .global .t_number"@,
        "    .align 3"@,
        ".t_string:"@,
        "    .quad 3"@,
        "    .quad -1"@,
        "    .quad 6"@,
        "    .asciz \"string\""@,
        "    .global .t_string"@,
        "    .align 3"@,
        ".t_list:"@,
        "    .quad 3"@,
        "    .quad -1"@,
        "    .quad 4"@,
        "    .asciz \"list\""@,
        "    .global .t_list"@,
        "    .align 3"@,
        ".t_map:"@,
        "    .quad 3"@,
        "    .quad -1"@,
        "    .quad 3"@,
        "    .asciz \"map\""@,
        "    .global .t_map"@,
        "    .align 3"@,
        ".t_struct:"@,
    ]
}

/// Part 3 of the fixed data every assembly file starts with.
pub open spec fn data_header_part_3() -> Seq<Seq<char>> {
    seq![
        "    .quad 3"@,
        "    .quad -1"@,
        "    .quad 6"@,
        "    .asciz \"struct\""@,
        "    .global .t_struct"@,
        "    .align 3"@,
        ".t_null:"@,
        "    .quad 3"@,
        "    .quad -1"@,
        "    .quad 4"@,
        "    .asciz \"null\""@,
        "    .global .t_null"@,
        "    .align 3"@,
        ".t_object:"@,
        "    .quad 3"@,
        "    .quad -1"@,
        "    .quad 6"@,
        "    .asciz \"object\""@,
        "    .global .t_object"@,
        "    .align 3"@,
        ".t_true:"@,
        "    .quad 3"@,
        "    .quad -1"@,
        "    .quad 4"@,
        "    .asciz \"true\""@,
        "    .global .t_true"@,
        "    .align 3"@,
        ".t_false:"@,
        "    .quad 3"@,
        "    .quad -1"@,
        "    .quad 5"@,
        "    .asciz \"false\""@,
        "    .global .t_false"@,
    ]
}

/// The fixed data every assembly file starts with: the newline and format
/// strings, the punctuation of printed lists and maps, and the names of the
/// value types as static string objects.
#[verifier::opaque]
pub open spec fn data_header_lines() -> Seq<Seq<char>> {
    data_header_part_1() + data_header_part_2() + data_header_part_3()
}

impl Arm64CodeGen {

    /// Part 1 of the fixed data.
    fn emit_data_header_part_1(&mut self)
        ensures
            final(self).lines() == old(self).lines() + data_header_part_1(),
            gen_view(final(self)) == gen_view(old(self)),
            final(self).frame() == old(self).frame(),
            final(self).variables() == old(self).variables(),
    {
        let mut block: Vec<Vec<char>> = Vec::new();
        push_line(&mut block, "    .align 3");
        push_line(&mut block, ".newline:");
        push_line(&mut block, "    .asciz \"\\n\"");
        push_line(&mut block, "    .global .newline");
        push_line(&mut block, "    .align 3");
        push_line(&mut block, ".fmt_int:");
        push_line(&mut block, "    .asciz \"%ld\\n\"");
        push_line(&mut block, "    .global .fmt_int");
        push_line(&mut block, "    .align 3");
        push_line(&mut block, ".fmt_int_raw:");
        push_line(&mut block, "    .asciz \"%ld\"");
        push_line(&mut block, "    .global .fmt_int_raw");
        push_line(&mut block, "    .align 3");
        push_line(&mut block, ".list_start:");
        push_line(&mut block, "    .asciz \"[\"");
        push_line(&mut block, "    .global .list_start");
        push_line(&mut block, "    .align 3");
        push_line(&mut block, ".list_end:");
        push_line(&mut block, "    .asciz \"]\"");
        push_line(&mut block, "    .global .list_end");
        push_line(&mut block, "    .align 3");
        push_line(&mut block, ".map_start:");
        push_line(&mut block, "    .asciz \"{\"");
        push_line(&mut block, "    .global .map_start");
        push_line(&mut block, "    .align 3");
        push_line(&mut block, ".map_end:");
        push_line(&mut block, "    .asciz \"}\"");
        push_line(&mut block, "    .global .map_end");
        push_line(&mut block, "    .align 3");
        push_line(&mut block, ".comma_space:");
        push_line(&mut block, "    .asciz \", \"");
        push_line(&mut block, "    .global .comma_space");
        push_line(&mut block, "    .align 3");
        assert(crate::chars::views(block@) =~= data_header_part_1());
        self.emit_lines(&block);
    }

    /// Part 2 of the fixed data.
    fn emit_data_header_part_2(&mut self)
        ensures
            final(self).lines() == old(self).lines() + data_header_part_2(),
            gen_view(final(self)) == gen_view(old(self)),
            final(self).frame() == old(self).frame(),
            final(self).variables() == old(self).variables(),
    {
        let mut block: Vec<Vec<char>> = Vec::new();
        push_line(&mut block, ".colon_space:");
        push_line(&mut block, "    .asciz \": \"");
        push_line(&mut block, "    .global .colon_space");
        push_line(&mut block, "    .align 3");
        push_line(&mut block, ".t_number:");
        push_line(&mut block, "    .quad 3");
        push_line(&mut block, "    .quad -1");
        push_line(&mut block, "    .quad 6");
        push_line(&mut block, "    .asciz \"number\"");
        push_line(&mut block, "    .global .t_number");
        push_line(&mut block, "    .align 3");
        push_line(&mut block, ".t_string:");
        push_line(&mut block, "    .quad 3");
        push_line(&mut block, "    .quad -1");
        push_line(&mut block, "    .quad 6");
        push_line(&mut block, "    .asciz \"string\"");
        push_line(&mut block, "    .global .t_string");
        push_line(&mut block, "    .align 3");
        push_line(&mut block, ".t_list:");
        push_line(&mut block, "    .quad 3");
        push_line(&mut block, "    .quad -1");
        push_line(&mut block, "    .quad 4");
        push_line(&mut block, "    .asciz \"list\"");
        push_line(&mut block, "    .global .t_list");
        push_line(&mut block, "    .align 3");
        push_line(&mut block, ".t_map:");
        push_line(&mut block, "    .quad 3");
        push_line(&mut block, "    .quad -1");
        push_line(&mut block, "    .quad 3");
        push_line(&mut block, "    .asciz \"map\"");
        push_line(&mut block, "    .global .t_map");
        push_line(&mut block, "    .align 3");
        push_line(&mut block, ".t_struct:");
        assert(crate::chars::views(block@) =~= data_header_part_2());
        self.emit_lines(&block);
    }

    /// Part 3 of the fixed data.
    fn emit_data_header_part_3(&mut self)
        ensures
            final(self).lines() == old(self).lines() + data_header_part_3(),
            gen_view(final(self)) == gen_view(old(self)),
            final(self).frame() == old(self).frame(),
            final(self).variables() == old(self).variables(),
    {
        let mut block: Vec<Vec<char>> = Vec::new();
        push_line(&mut block, "    .quad 3");
        push_line(&mut block, "    .quad -1");
        push_line(&mut block, "    .quad 6");
        push_line(&mut block, "    .asciz \"struct\"");
        push_line(&mut block, "    .global .t_struct");
        push_line(&mut block, "    .align 3");
        push_line(&mut block, ".t_null:");
        push_line(&mut block, "    .quad 3");
        push_line(&mut block, "    .quad -1");
        push_line(&mut block, "    .quad 4");
        push_line(&mut block, "    .asciz \"null\"");
        push_line(&mut block, "    .global .t_null");
        push_line(&mut block, "    .align 3");
        push_line(&mut block, ".t_object:");
        push_line(&mut block, "    .quad 3");
        push_line(&mut block, "    .quad -1");
        push_line(&mut block, "    .quad 6");
        push_line(&mut block, "    .asciz \"object\"");
        push_line(&mut block, "    .global .t_object");
        push_line(&mut block, "    .align 3");
        push_line(&mut block, ".t_true:");
        push_line(&mut block, "    .quad 3");
        push_line(&mut block, "    .quad -1");
        push_line(&mut block, "    .quad 4");
        push_line(&mut block, "    .asciz \"true\"");
        push_line(&mut block, "    .global .t_true");
        push_line(&mut block, "    .align 3");
        push_line(&mut block, ".t_false:");
        push_line(&mut block, "    .quad 3");
        push_line(&mut block, "    .quad -1");
        push_line(&mut block, "    .quad 5");
        push_line(&mut block, "    .asciz \"false\"");
        push_line(&mut block, "    .global .t_false");
        assert(crate::chars::views(block@) =~= data_header_part_3());
        self.emit_lines(&block);
    }

    /// The fixed data every assembly file starts with.
    fn emit_data_header(&mut self)
        ensures
            final(self).lines() == old(self).lines() + data_header_lines(),
            gen_view(final(self)) == gen_view(old(self)),
            final(self).frame() == old(self).frame(),
            final(self).variables() == old(self).variables(),
    {
        self.emit_data_header_part_1();
        self.emit_data_header_part_2();
        self.emit_data_header_part_3();
        proof {
            reveal(data_header_lines);
        }
        assert(self.lines() =~= old(self).lines() + data_header_lines());
    }
}

} // verus!

verus! {

/// The functions of a program in entry order, as views.
pub open spec fn function_views(p: &IrProgram) -> Seq<FunctionView> {
    p.functions.pairs().map_values(|e: (Seq<char>, IrFunction)| e.1@)
}

/// Whether `s` is one of `v`.
fn contains_name(v: &Vec<String>, s: &String) -> (r: bool)
    ensures
        r == names_view(v@).contains(s@),
{
    let mut i: usize = 0;
    while i < v.len()
        invariant
            0 <= i <= v.len(),
            forall|j: int| 0 <= j < i ==> #[trigger] v@[j]@ != s@,
        decreases v.len() - i,
    {
        if same_text(v[i].as_str(), s.as_str()) {
            assert(names_view(v@)[i as int] == s@);
            return true;
        }
        i = i + 1;
    }
    assert forall|j: int| 0 <= j < names_view(v@).len() implies names_view(v@)[j] != s@ by {
        assert(names_view(v@)[j] == v@[j]@);
    }
    false
}

/// Adds the literals of `instrs` to `lits`, in order, each once.
fn collect_literals(lits: &mut Vec<String>, instrs: &Vec<IrInstr>)
    ensures
        names_view(final(lits)@) == add_literals(names_view(old(lits)@), instrs_view(instrs@)),
{
    let ghost is = instrs_view(instrs@);
    let ghost l0 = names_view(lits@);
    let mut i: usize = 0;
    assert(is.take(0) =~= Seq::<InstrView>::empty());
    while i < instrs.len()
        invariant
            0 <= i <= instrs.len(),
            is == instrs_view(instrs@),
            l0 == names_view(old(lits)@),
            names_view(lits@) == add_literals(l0, is.take(i as int)),
        decreases instrs.len() - i,
    {
        assert(is.take(i + 1).drop_last() =~= is.take(i as int));
        assert(is.take(i + 1).last() == instrs@[i as int]@);
        let found: Option<&String> = match &instrs[i] {
            IrInstr::LoadConst { value: IrValue::String(s), .. } => Some(s),
            IrInstr::Input { prompt, .. } => Some(prompt),
            _ => None,
        };
        match found {
            Some(s) => {
                if !contains_name(lits, s) {
                    let ghost before = lits@;
                    lits.push(s.clone());
                    assert(names_view(lits@) =~= names_view(before).push(s@));
                }
            },
            None => {},
        }
        i = i + 1;
    }
    assert(is.take(instrs.len() as int) =~= is);
}

impl Arm64CodeGen {
    /// Writes the data section: the fixed data, then a static string object
    /// for each string literal of the program, labelled `.str0, .str1, ...`
    /// in order of first use, top-level code first.
    pub fn generate_data_section(&mut self, program: &IrProgram)
        ensures
            ({
                let lits = program_literals(instrs_view(program.global_code@), function_views(program));
                &&& final(self).lines() == old(self).lines() + (data_header_lines() + literal_entries(lits))
                &&& gen_view(final(self)) == (GenView { strings: literal_labels(old(self).strings(), lits), ..gen_view(old(self)) })
            }),
            final(self).frame() == old(self).frame(),
            final(self).variables() == old(self).variables(),
    {
        self.emit_data_header();
        let ghost fv = function_views(program);
        let mut lits: Vec<String> = Vec::new();
        assert(names_view(lits@) =~= Seq::<Seq<char>>::empty());
        collect_literals(&mut lits, &program.global_code);
        let n = program.functions.len();
        let mut k: usize = 0;
        assert(fv.take(0) =~= Seq::<FunctionView>::empty());
        while k < n
            invariant
                0 <= k <= n,
                n == program.functions.pairs().len(),
                fv == function_views(program),
                names_view(lits@) == program_literals(instrs_view(program.global_code@), fv.take(k as int)),
            decreases n - k,
        {
            let f = program.functions.value_at(k);
            assert(fv.take(k + 1).drop_last() =~= fv.take(k as int));
            assert(fv.take(k + 1).last() == f@);
            collect_literals(&mut lits, &f.instructions);
            k = k + 1;
        }
        assert(fv.take(n as int) =~= fv);
        let ghost all = names_view(lits@);
        let ghost head = self.lines();
        let ghost s0 = self.strings();
        let mut i: usize = 0;
        assert(all.take(0) =~= Seq::<Seq<char>>::empty());
        assert(self.lines() =~= head + literal_entries(all.take(0)));
        while i < lits.len()
            invariant
                0 <= i <= lits.len(),
                all == names_view(lits@),
                self.lines() == head + literal_entries(all.take(i as int)),
                self.strings() == literal_labels(s0, all.take(i as int)),
                gen_view(self) == (GenView { strings: self.strings(), ..gen_view(old(self)) }),
                self.frame() == old(self).frame(),
                self.variables() == old(self).variables(),
            decreases lits.len() - i,
        {
            let s = &lits[i];
            assert(all.take(i + 1).drop_last() =~= all.take(i as int));
            assert(all.take(i + 1).last() == s@);
            let label = concat(".str", u64_to_text(i as u64).as_str());
            let l2 = concat(label.as_str(), ":");
            let l5 = concat("    .quad ", u64_to_text(byte_length(s.as_str()) as u64).as_str());
            let a6 = concat("    .asciz \"", s.as_str());
            let l6 = concat(a6.as_str(), "\"");
            let mut block: Vec<Vec<char>> = Vec::new();
            push_line(&mut block, "    .align 3");
            push_line(&mut block, l2.as_str());
            push_line(&mut block, "    .quad 3");
            push_line(&mut block, "    .quad -1");
            push_line(&mut block, l5.as_str());
            push_line(&mut block, l6.as_str());
            assert(crate::chars::views(block@) =~= literal_entry(i as nat, s@));
            self.emit_lines(&block);
            self.set_string_label(s.clone(), label);
            assert(self.lines() =~= head + literal_entries(all.take(i + 1)));
            i = i + 1;
        }
        assert(all.take(lits.len() as int) =~= all);
        assert(self.lines() =~= old(self).lines() + (data_header_lines() + literal_entries(all)));
    }
}

} // verus!

verus! {

/// A name's first appearance keeps it.
pub proof fn lemma_first_seen_contains(names: Seq<Seq<char>>, i: int)
    requires
        0 <= i < names.len(),
    ensures
        first_seen(names).contains(names[i]),
    decreases names.len(),
{
    let rest = first_seen(names.drop_last());
    if i < names.len() - 1 {
        lemma_first_seen_contains(names.drop_last(), i);
        assert(names.drop_last()[i] == names[i]);
        if !rest.contains(names.last()) {
            let j = choose|j: int| 0 <= j < rest.len() && rest[j] == names[i];
            assert(rest.push(names.last())[j] == names[i]);
        }
    } else {
        if !rest.contains(names.last()) {
            assert(rest.push(names.last())[rest.len() as int] == names[i]);
        }
    }
}

/// First appearances are no more than the names.
pub proof fn lemma_first_seen_len(names: Seq<Seq<char>>)
    ensures
        first_seen(names).len() <= names.len(),
    decreases names.len(),
{
    if names.len() > 0 {
        lemma_first_seen_len(names.drop_last());
    }
}

/// Whether a function's frame and code fit the machine's counters: its
/// slots and their offsets fit an `i32` with room for the epilogue's
/// adjustment, and its list literals' buffer sizes fit an `i64`.
pub open spec fn frame_fits(params: Seq<Seq<char>>, body: Seq<InstrView>) -> bool {
    &&& (params.len() + frame_dests(body).len() + body.len() + 1) * 8 + 16 <= i32::MAX
    &&& lists_fit(body)
}

/// The most labels a function of `n` instructions takes: its epilogue's and
/// four per instruction.
pub open spec fn fn_label_budget(n: nat) -> nat {
    5 + 4 * n
}

/// The assembly of a function from state `g`: the header line, the
/// prologue of its frame (parameters first, then the names its code
/// writes, 8 bytes each), its code, `mov x0, #0` for the main function, and
/// the epilogue, which releases every slot in increasing offset order. On
/// a refused instruction, the lines up to it and its error.
#[verifier::opaque]
pub open spec fn function_asm(g: GenView, head: Seq<char>, params: Seq<Seq<char>>, body: Seq<InstrView>, exit_zero: bool) -> (
    GenView,
    Seq<Seq<char>>,
    Option<Seq<char>>,
) {
    let names = first_seen(params + frame_dests(body));
    let slots = layout_slots(names);
    let frame = ((names.len() * 8 + 15) / 16 * 16) as i32;
    let g0 = GenView { offsets: map_of(slots), slots: slots, labels: g.labels + 1, epilogue: label_at(g.labels), strings: g.strings };
    let start = seq![head] + prologue_lines(frame, params, g0.offsets);
    let (g1, code, r) = instrs_asm(g0, body);
    if r is Some {
        (g1, start + code, r)
    } else {
        (g1, start + code + (if exit_zero { seq!["    mov x0, #0"@] } else { seq![] }) + epilogue_lines(
            g0.epilogue,
            frame,
            g1.slots.map_values(|p: (Seq<char>, i32)| p.1).sort_by(offset_leq()),
        ), None)
    }
}

impl Arm64CodeGen {
    /// The code of one instruction, keeping the slots dense.
    fn generate_one(&mut self, instr: &IrInstr) -> (r: Result<(), String>)
        requires
            dense(old(self).slots()),
            (old(self).slots().len() + 1) * 8 <= i32::MAX,
            old(self).labels_made() + 4 <= usize::MAX,
            instr@ is AllocList ==> instr@->AllocList_items.len() * 8 <= i64::MAX,
        ensures
            asm_done(gen_view(old(self)), instr@, old(self).lines(), final(self), r),
            final(self).frame() == old(self).frame(),
            dense(final(self).slots()),
            final(self).slots().len() <= old(self).slots().len() + 1,
            final(self).labels_made() <= old(self).labels_made() + 4,
            final(self).epilogue() == old(self).epilogue(),
    {
        self.frame_facts();
        let ghost gi = gen_view(self);
        proof {
            lemma_instr_asm_step(gi, instr@);
        }
        let r = self.generate_instruction(instr);
        proof {
            if self.slots() != gi.slots {
                assert forall|j: int| 0 <= j < self.slots().len() implies #[trigger] self.slots()[j].1 == j * 8 by {
                    if j < gi.slots.len() {
                        assert(self.slots()[j] == gi.slots[j]);
                    }
                }
            }
        }
        r
    }

    /// Appends the code of each instruction in order, stopping at the first
    /// refused one.
    fn generate_body(&mut self, instrs: &Vec<IrInstr>) -> (r: Result<(), String>)
        requires
            dense(old(self).slots()),
            (old(self).slots().len() + instrs@.len() + 1) * 8 <= i32::MAX,
            old(self).labels_made() + 4 * instrs@.len() + 4 <= usize::MAX,
            lists_fit(instrs_view(instrs@)),
        ensures
            ({
                let x = instrs_asm(gen_view(old(self)), instrs_view(instrs@));
                &&& gen_view(final(self)) == x.0
                &&& final(self).lines() == old(self).lines() + x.1
                &&& match r {
                    Ok(_) => x.2 is None,
                    Err(m) => x.2 == Some(m@),
                }
            }),
            final(self).frame() == old(self).frame(),
            dense(final(self).slots()),
            final(self).slots().len() <= old(self).slots().len() + instrs@.len(),
            final(self).labels_made() <= old(self).labels_made() + 4 * instrs@.len(),
            final(self).epilogue() == old(self).epilogue(),
    {
        let ghost g = gen_view(self);
        let ghost is = instrs_view(instrs@);
        let ghost s0 = self.slots().len();
        let ghost l0 = self.labels_made();
        let n = instrs.len();
        let mut i: usize = 0;
        assert(is.take(0) =~= Seq::<InstrView>::empty());
        assert(self.lines() =~= old(self).lines() + Seq::<Seq<char>>::empty());
        proof {
            reveal(instrs_asm);
        }
        while i < n
            invariant
                0 <= i <= n,
                n == instrs@.len(),
                is == instrs_view(instrs@),
                g == gen_view(old(self)),
                s0 == old(self).slots().len(),
                l0 == old(self).labels_made(),
                (s0 + n + 1) * 8 <= i32::MAX,
                l0 + 4 * n + 4 <= usize::MAX,
                lists_fit(is),
                gen_view(self) == instrs_asm(g, is.take(i as int)).0,
                self.lines() == old(self).lines() + instrs_asm(g, is.take(i as int)).1,
                instrs_asm(g, is.take(i as int)).2 is None,
                self.frame() == old(self).frame(),
                dense(self.slots()),
                self.slots().len() <= s0 + i,
                self.labels_made() <= l0 + 4 * i,
                self.epilogue() == old(self).epilogue(),
            decreases n - i,
        {
            proof {
                reveal(instrs_asm);
            }
            assert(is.take(i + 1).drop_last() =~= is.take(i as int));
            assert(is.take(i + 1).last() == instrs@[i as int]@);
            assert(is[i as int] == instrs@[i as int]@);
            let r = self.generate_one(&instrs[i]);
            proof {
                assert(self.lines() =~= old(self).lines() + instrs_asm(g, is.take(i + 1)).1);
            }
            match r {
                Err(m) => {
                    proof {
                        lemma_instrs_asm_prefix(g, is, i + 1);
                    }
                    return Err(m);
                },
                Ok(()) => {},
            }
            i = i + 1;
        }
        assert(is.take(n as int) =~= is);
        Ok(())
    }

    /// Starts a function: `head`, a fresh epilogue label, the frame laid
    /// out for the parameters and the names the code writes, and the
    /// prologue.
    fn open_frame(&mut self, head: &str, params: &[String], instrs: &Vec<IrInstr>)
        requires
            frame_fits(names_view(params@), instrs_view(instrs@)),
            old(self).labels_made() < usize::MAX,
        ensures
            ({
                let names = first_seen(names_view(params@) + frame_dests(instrs_view(instrs@)));
                let g = gen_view(old(self));
                let slots = layout_slots(names);
                let frame = ((names.len() * 8 + 15) / 16 * 16) as i32;
                &&& gen_view(final(self)) == (GenView {
                    offsets: map_of(slots),
                    slots: slots,
                    labels: g.labels + 1,
                    epilogue: label_at(g.labels),
                    strings: g.strings,
                })
                &&& final(self).frame() == frame
                &&& final(self).lines() == old(self).lines() + (seq![head@] + prologue_lines(frame, names_view(params@), map_of(slots)))
                &&& final(self).slots().len() == names.len()
                &&& names.len() <= names_view(params@).len() + frame_dests(instrs_view(instrs@)).len()
            }),
            dense(final(self).slots()),
    {
        let ghost ps = names_view(params@);
        let ghost body = instrs_view(instrs@);
        proof {
            lemma_first_seen_len(ps + frame_dests(body));
        }
        self.emit(head);
        self.begin_function();
        let slice = instrs.as_slice();
        assert(instrs_view(slice@) == body);
        assert(params@.map_values(|s: String| s@) == ps);
        self.precalculate_stack_offsets(slice, params);
        self.frame_facts();
        proof {
            assert forall|i: int| 0 <= i < params@.len() && i < 8 implies self.offsets().contains_key(#[trigger] params@[i]@) by {
                assert((ps + frame_dests(body))[i] == params@[i]@);
                lemma_first_seen_contains(ps + frame_dests(body), i);
                assert(self.variables().to_set().contains(params@[i]@));
            }
        }
        self.generate_function_prologue(params);
        assert(self.lines() =~= old(self).lines() + (seq![head@] + prologue_lines(self.frame(), ps, self.offsets())));
    }

    /// Ends a function: `mov x0, #0` when `exit_zero`, then the epilogue.
    fn close_frame(&mut self, exit_zero: bool)
        requires
            dense(old(self).slots()),
            old(self).slots().len() * 8 + 16 <= i32::MAX,
        ensures
            final(self).lines() == old(self).lines() + ((if exit_zero { seq!["    mov x0, #0"@] } else { Seq::<Seq<char>>::empty() })
                + epilogue_lines(old(self).epilogue(), old(self).frame(), old(self).slots().map_values(|p: (Seq<char>, i32)| p.1).sort_by(offset_leq()))),
            gen_view(final(self)) == gen_view(old(self)),
    {
        if exit_zero {
            self.emit("    mov x0, #0");
        }
        let ghost exited = self.lines();
        assert(exited =~= old(self).lines() + (if exit_zero { seq!["    mov x0, #0"@] } else { Seq::<Seq<char>>::empty() }));
        self.frame_facts();
        proof {
            self.lemma_sorted_offsets();
        }
        self.generate_function_epilogue();
        assert(self.lines() =~= old(self).lines() + ((if exit_zero { seq!["    mov x0, #0"@] } else { Seq::<Seq<char>>::empty() })
            + epilogue_lines(old(self).epilogue(), old(self).frame(), old(self).slots().map_values(|p: (Seq<char>, i32)| p.1).sort_by(offset_leq()))));
    }

    /// Writes a function: `head`, a fresh epilogue label, the frame laid
    /// out, the prologue, the code, `mov x0, #0` when `exit_zero`, and the
    /// epilogue.
    fn generate_function(&mut self, head: &str, params: &[String], instrs: &Vec<IrInstr>, exit_zero: bool) -> (r: Result<(), String>)
        requires
            frame_fits(names_view(params@), instrs_view(instrs@)),
            old(self).labels_made() + fn_label_budget(instrs@.len()) <= usize::MAX,
        ensures
            ({
                let x = function_asm(gen_view(old(self)), head@, names_view(params@), instrs_view(instrs@), exit_zero);
                &&& gen_view(final(self)) == x.0
                &&& final(self).lines() == old(self).lines() + x.1
                &&& match r {
                    Ok(_) => x.2 is None,
                    Err(m) => x.2 == Some(m@),
                }
            }),
            final(self).labels_made() <= old(self).labels_made() + fn_label_budget(instrs@.len()),
    {
        let ghost g = gen_view(self);
        let ghost ps = names_view(params@);
        let ghost body = instrs_view(instrs@);
        let ghost names = first_seen(ps + frame_dests(body));
        let ghost slots = layout_slots(names);
        let ghost frame = ((names.len() * 8 + 15) / 16 * 16) as i32;
        let ghost g0 = GenView { offsets: map_of(slots), slots: slots, labels: g.labels + 1, epilogue: label_at(g.labels), strings: g.strings };
        let ghost startl = seq![head@] + prologue_lines(frame, ps, g0.offsets);
        let ghost x = instrs_asm(g0, body);
        let ghost exitl = if exit_zero { seq!["    mov x0, #0"@] } else { Seq::<Seq<char>>::empty() };
        let ghost ep = epilogue_lines(g0.epilogue, frame, x.0.slots.map_values(|p: (Seq<char>, i32)| p.1).sort_by(offset_leq()));
        proof {
            reveal(function_asm);
        }
        assert(function_asm(g, head@, ps, body, exit_zero) == (if x.2 is Some {
            (x.0, startl + x.1, x.2)
        } else {
            (x.0, startl + x.1 + exitl + ep, None::<Seq<char>>)
        }));
        self.open_frame(head, params, instrs);
        assert(gen_view(self) == g0);
        assert(self.lines() == old(self).lines() + startl);
        let r = self.generate_body(instrs);
        match r {
            Err(m) => {
                assert(self.lines() =~= old(self).lines() + (startl + x.1));
                return Err(m);
            },
            Ok(()) => {},
        }
        self.close_frame(exit_zero);
        assert(self.lines() =~= old(self).lines() + (startl + x.1 + exitl + ep));
        Ok(())
    }
}

} // verus!

verus! {

/// The functions of a program in entry order, with their names.
pub open spec fn named_functions(p: &IrProgram) -> Seq<(Seq<char>, FunctionView)> {
    p.functions.pairs().map_values(|e: (Seq<char>, IrFunction)| (e.0, e.1@))
}

/// The user functions' assembly in order, each under `_user_<name>:`,
/// stopping at the first refused instruction.
#[verifier::opaque]
pub open spec fn functions_asm(g: GenView, fns: Seq<(Seq<char>, FunctionView)>) -> (GenView, Seq<Seq<char>>, Option<Seq<char>>)
    decreases fns.len(),
{
    if fns.len() == 0 {
        (g, seq![], None)
    } else {
        let (g1, c1, r1) = functions_asm(g, fns.drop_last());
        if r1 is Some {
            (g1, c1, r1)
        } else {
            let f = fns.last();
            let (g2, c2, r2) = function_asm(g1, "_user_"@ + sanitized(f.0) + ":"@, f.1.params, f.1.instructions, false);
            (g2, c1 + c2, r2)
        }
    }
}

/// A prefix that is refused gives the outcome of the whole.
pub proof fn lemma_functions_asm_prefix(g: GenView, fns: Seq<(Seq<char>, FunctionView)>, k: int)
    requires
        0 <= k <= fns.len(),
        functions_asm(g, fns.take(k)).2 is Some,
    ensures
        functions_asm(g, fns) == functions_asm(g, fns.take(k)),
    decreases fns.len() - k,
{
    reveal(functions_asm);
    if k == fns.len() {
        assert(fns.take(k) =~= fns);
    } else {
        assert(fns.take(k + 1).drop_last() =~= fns.take(k));
        lemma_functions_asm_prefix(g, fns, k + 1);
    }
}

/// The most labels the user functions take.
pub open spec fn fns_label_budget(fvs: Seq<FunctionView>) -> nat
    decreases fvs.len(),
{
    if fvs.len() == 0 {
        0
    } else {
        fns_label_budget(fvs.drop_last()) + fn_label_budget(fvs.last().instructions.len())
    }
}

/// The budget of a prefix is at most that of all.
pub proof fn lemma_fns_label_budget_prefix(fvs: Seq<FunctionView>, k: int)
    requires
        0 <= k <= fvs.len(),
    ensures
        fns_label_budget(fvs.take(k)) <= fns_label_budget(fvs),
    decreases fvs.len() - k,
{
    if k == fvs.len() {
        assert(fvs.take(k) =~= fvs);
    } else {
        lemma_fns_label_budget_prefix(fvs, k + 1);
        assert(fvs.take(k + 1).drop_last() =~= fvs.take(k));
    }
}

/// Whether a program's assembly fits the machine's counters: each
/// function's frame and code, and all the labels it takes.
pub open spec fn program_fits(g: GenView, p: &IrProgram) -> bool {
    let fvs = function_views(p);
    let global = instrs_view(p.global_code@);
    &&& frame_fits(seq![], global)
    &&& forall|k: int| 0 <= k < fvs.len() ==> frame_fits(#[trigger] fvs[k].params, fvs[k].instructions)
    &&& g.labels + fn_label_budget(global.len()) + fns_label_budget(fvs) + runtime_label_count() <= usize::MAX
}

/// The lines before the code: the entry symbol, the data section, and the
/// start of the text section.
pub open spec fn program_head(lits: Seq<Seq<char>>) -> Seq<Seq<char>> {
    seq![".global _main"@, ".align 4"@, ""@, ".data"@] + (data_header_lines() + literal_entries(lits)) + seq![""@, ".text"@]
}

/// The assembly of a whole program from state `g`: the head, `_main` from
/// the top-level code (a stub returning zero when there is none), each user
/// function, and the runtime routines. On a refused instruction, the lines
/// up to it and its error.
#[verifier::opaque]
pub open spec fn program_asm(g: GenView, global: Seq<InstrView>, fns: Seq<(Seq<char>, FunctionView)>, lits: Seq<Seq<char>>) -> (
    GenView,
    Seq<Seq<char>>,
    Option<Seq<char>>,
) {
    let head = program_head(lits);
    let g1 = GenView { strings: literal_labels(g.strings, lits), ..g };
    let (g2, c2, r2) = if global.len() > 0 {
        function_asm(g1, "_main:"@, seq![], global, true)
    } else {
        (g1, seq!["_main:"@, "    mov x0, #0"@, "    ret"@], None)
    };
    if r2 is Some {
        (g2, head + c2, r2)
    } else {
        let (g3, c3, r3) = functions_asm(g2, fns);
        if r3 is Some {
            (g3, head + c2 + c3, r3)
        } else {
            (GenView { labels: g3.labels + runtime_label_count(), ..g3 }, head + c2 + c3 + runtime_lines(g3.labels), None)
        }
    }
}

impl Arm64CodeGen {
    /// Writes the user functions in entry order.
    fn generate_functions(&mut self, program: &IrProgram) -> (r: Result<(), String>)
        requires
            forall|k: int| 0 <= k < function_views(program).len() ==> frame_fits(
                #[trigger] function_views(program)[k].params,
                function_views(program)[k].instructions,
            ),
            old(self).labels_made() + fns_label_budget(function_views(program)) <= usize::MAX,
        ensures
            ({
                let x = functions_asm(gen_view(old(self)), named_functions(program));
                &&& gen_view(final(self)) == x.0
                &&& final(self).lines() == old(self).lines() + x.1
                &&& match r {
                    Ok(_) => x.2 is None,
                    Err(m) => x.2 == Some(m@),
                }
            }),
            final(self).labels_made() <= old(self).labels_made() + fns_label_budget(function_views(program)),
    {
        let ghost g = gen_view(self);
        let ghost fns = named_functions(program);
        let ghost fvs = function_views(program);
        let ghost l0 = self.labels_made();
        let n = program.functions.len();
        let mut k: usize = 0;
        assert(fns.take(0) =~= Seq::<(Seq<char>, FunctionView)>::empty());
        assert(fvs.take(0) =~= Seq::<FunctionView>::empty());
        proof {
            reveal(functions_asm);
        }
        assert(self.lines() =~= old(self).lines() + Seq::<Seq<char>>::empty());
        while k < n
            invariant
                0 <= k <= n,
                n == program.functions.pairs().len(),
                fns == named_functions(program),
                fvs == function_views(program),
                g == gen_view(old(self)),
                l0 == old(self).labels_made(),
                forall|j: int| 0 <= j < fvs.len() ==> frame_fits(#[trigger] fvs[j].params, fvs[j].instructions),
                l0 + fns_label_budget(fvs) <= usize::MAX,
                gen_view(self) == functions_asm(g, fns.take(k as int)).0,
                self.lines() == old(self).lines() + functions_asm(g, fns.take(k as int)).1,
                functions_asm(g, fns.take(k as int)).2 is None,
                self.labels_made() <= l0 + fns_label_budget(fvs.take(k as int)),
            decreases n - k,
        {
            proof {
                reveal(functions_asm);
                lemma_fns_label_budget_prefix(fvs, k + 1);
            }
            assert(fns.take(k + 1).drop_last() =~= fns.take(k as int));
            assert(fvs.take(k + 1).drop_last() =~= fvs.take(k as int));
            let name = program.functions.name_at(k);
            let f = program.functions.value_at(k);
            assert(fns.take(k + 1).last() == (name@, f@));
            assert(fvs.take(k + 1).last() == f@);
            assert(fvs[k as int] == f@);
            let san = self.sanitize(name.as_str());
            let h = concat("_user_", san.as_str());
            let head = concat(h.as_str(), ":");
            let ps = f.params.as_slice();
            assert(names_view(ps@) == f@.params);
            let r = self.generate_function(head.as_str(), ps, &f.instructions, false);
            proof {
                assert(self.lines() =~= old(self).lines() + functions_asm(g, fns.take(k + 1)).1);
            }
            match r {
                Err(m) => {
                    proof {
                        lemma_functions_asm_prefix(g, fns, k + 1);
                    }
                    return Err(m);
                },
                Ok(()) => {},
            }
            k = k + 1;
        }
        assert(fns.take(n as int) =~= fns);
        assert(fvs.take(n as int) =~= fvs);
        Ok(())
    }

    /// Writes the entry symbol, the data section and the start of the text
    /// section.
    fn generate_head(&mut self, program: &IrProgram)
        ensures
            ({
                let lits = program_literals(instrs_view(program.global_code@), function_views(program));
                &&& final(self).lines() == old(self).lines() + program_head(lits)
                &&& gen_view(final(self)) == (GenView { strings: literal_labels(old(self).strings(), lits), ..gen_view(old(self)) })
            }),
    {
        let ghost lits = program_literals(instrs_view(program.global_code@), function_views(program));
        self.emit(".global _main");
        self.emit(".align 4");
        self.emit("");
        self.emit(".data");
        self.generate_data_section(program);
        self.emit("");
        self.emit(".text");
        assert(self.lines() =~= old(self).lines() + program_head(lits));
    }

    /// Writes `_main` from the top-level code, or a stub that returns zero
    /// when there is none.
    fn generate_main(&mut self, program: &IrProgram) -> (r: Result<(), String>)
        requires
            frame_fits(seq![], instrs_view(program.global_code@)),
            old(self).labels_made() + fn_label_budget(program.global_code@.len()) <= usize::MAX,
        ensures
            ({
                let global = instrs_view(program.global_code@);
                let x = if global.len() > 0 {
                    function_asm(gen_view(old(self)), "_main:"@, seq![], global, true)
                } else {
                    (gen_view(old(self)), seq!["_main:"@, "    mov x0, #0"@, "    ret"@], None::<Seq<char>>)
                };
                &&& gen_view(final(self)) == x.0
                &&& final(self).lines() == old(self).lines() + x.1
                &&& match r {
                    Ok(_) => x.2 is None,
                    Err(m) => x.2 == Some(m@),
                }
            }),
            final(self).labels_made() <= old(self).labels_made() + fn_label_budget(program.global_code@.len()),
    {
        if program.global_code.len() > 0 {
            let none: Vec<String> = Vec::new();
            let ps = none.as_slice();
            assert(names_view(ps@) =~= Seq::<Seq<char>>::empty());
            self.generate_function("_main:", ps, &program.global_code, true)
        } else {
            self.emit("_main:");
            self.emit("    mov x0, #0");
            self.emit("    ret");
            assert(self.lines() =~= old(self).lines() + seq!["_main:"@, "    mov x0, #0"@, "    ret"@]);
            Ok(())
        }
    }

    /// Writes the assembly of a whole program and gives the text written,
    /// or the error of the first instruction refused.
    pub fn generate(&mut self, program: &IrProgram) -> (r: Result<String, String>)
        requires
            program_fits(gen_view(old(self)), program),
        ensures
            ({
                let x = program_asm(
                    gen_view(old(self)),
                    instrs_view(program.global_code@),
                    named_functions(program),
                    program_literals(instrs_view(program.global_code@), function_views(program)),
                );
                &&& gen_view(final(self)) == x.0
                &&& final(self).lines() == old(self).lines() + x.1
                &&& match r {
                    Ok(s) => x.2 is None && s@ == final(self).text(),
                    Err(m) => x.2 == Some(m@),
                }
            }),
    {
        let ghost g = gen_view(self);
        let ghost global = instrs_view(program.global_code@);
        let ghost fns = named_functions(program);
        let ghost lits = program_literals(global, function_views(program));
        proof {
            reveal(program_asm);
        }
        let ghost o = self.lines();
        let ghost h = program_head(lits);
        self.generate_head(program);
        let ghost g1 = gen_view(self);
        let ghost main = if global.len() > 0 {
            function_asm(g1, "_main:"@, seq![], global, true)
        } else {
            (g1, seq!["_main:"@, "    mov x0, #0"@, "    ret"@], None::<Seq<char>>)
        };
        let r = self.generate_main(program);
        proof {
            vstd::seq_lib::lemma_concat_associative(o, h, main.1);
        }
        match r {
            Err(m) => {
                return Err(m);
            },
            Ok(()) => {},
        }
        let ghost fx = functions_asm(main.0, fns);
        let r = self.generate_functions(program);
        proof {
            vstd::seq_lib::lemma_concat_associative(o, h + main.1, fx.1);
        }
        match r {
            Err(m) => {
                return Err(m);
            },
            Ok(()) => {},
        }
        self.emit_runtime();
        proof {
            vstd::seq_lib::lemma_concat_associative(o, h + main.1 + fx.1, runtime_lines(fx.0.labels));
        }
        Ok(self.output())
    }
}

} // verus!

verus! {

/// A function's assembly starts with its header line.
proof fn lemma_function_asm_head(g: GenView, head: Seq<char>, params: Seq<Seq<char>>, body: Seq<InstrView>, exit_zero: bool)
    ensures
        function_asm(g, head, params, body, exit_zero).1.len() > 0,
        function_asm(g, head, params, body, exit_zero).1[0] == head,
{
    reveal(function_asm);
}

/// When no instruction is refused, every user function's label line is
/// among the lines of the functions' assembly.
proof fn lemma_functions_asm_labels(g: GenView, fns: Seq<(Seq<char>, FunctionView)>)
    requires
        functions_asm(g, fns).2 is None,
    ensures
        forall|k: int| 0 <= k < fns.len() ==> functions_asm(g, fns).1.contains(
            "_user_"@ + sanitized(#[trigger] fns[k].0) + ":"@,
        ),
    decreases fns.len(),
{
    reveal(functions_asm);
    if fns.len() > 0 {
        let p = fns.drop_last();
        let (g1, c1, r1) = functions_asm(g, p);
        lemma_functions_asm_labels(g, p);
        let f = fns.last();
        let head = "_user_"@ + sanitized(f.0) + ":"@;
        let (g2, c2, r2) = function_asm(g1, head, f.1.params, f.1.instructions, false);
        lemma_function_asm_head(g1, head, f.1.params, f.1.instructions, false);
        let c = functions_asm(g, fns).1;
        assert(c == c1 + c2);
        assert forall|k: int| 0 <= k < fns.len() implies c.contains("_user_"@ + sanitized(#[trigger] fns[k].0) + ":"@) by {
            if k < p.len() {
                assert(p[k] == fns[k]);
                let i = choose|i: int| 0 <= i < c1.len() && c1[i] == "_user_"@ + sanitized(p[k].0) + ":"@;
                assert(c[i] == c1[i]);
            } else {
                assert(c[c1.len() as int] == c2[0]);
            }
        }
    }
}

/// The layout of a program's assembly: it starts with the entry symbol,
/// the alignment and the data section; it has a `_main:` line, which for a
/// program without top-level code is a stub returning zero right after the
/// head; and, when no instruction is refused, a `_user_<name>:` line for
/// every user function.
pub proof fn law_program_layout(g: GenView, global: Seq<InstrView>, fns: Seq<(Seq<char>, FunctionView)>, lits: Seq<Seq<char>>)
    ensures
        ({
            let x = program_asm(g, global, fns, lits);
            let h = program_head(lits).len();
            &&& h >= 4 && x.1.len() >= h
            &&& x.1.take(4) == seq![".global _main"@, ".align 4"@, ""@, ".data"@]
            &&& x.1.contains("_main:"@)
            &&& global.len() == 0 ==> x.1.len() >= h + 3
            &&& global.len() == 0 ==> x.1.subrange(h as int, h as int + 3) == seq!["_main:"@, "    mov x0, #0"@, "    ret"@]
            &&& x.2 is None ==> forall|k: int| 0 <= k < fns.len() ==> x.1.contains(
                "_user_"@ + sanitized(#[trigger] fns[k].0) + ":"@,
            )
        }),
{
    reveal(program_asm);
    let x = program_asm(g, global, fns, lits);
    let head = program_head(lits);
    let g1 = GenView { strings: literal_labels(g.strings, lits), ..g };
    let main = if global.len() > 0 {
        function_asm(g1, "_main:"@, seq![], global, true)
    } else {
        (g1, seq!["_main:"@, "    mov x0, #0"@, "    ret"@], None::<Seq<char>>)
    };
    if global.len() > 0 {
        lemma_function_asm_head(g1, "_main:"@, seq![], global, true);
    }
    assert(main.1[0] == "_main:"@);
    let rest = x.1.skip(head.len() as int);
    assert(x.1 =~= head + rest);
    assert(rest.take(main.1.len() as int) =~= main.1);
    assert(x.1[head.len() as int] == main.1[0]);
    assert(x.1.take(4) =~= seq![".global _main"@, ".align 4"@, ""@, ".data"@]);
    if global.len() == 0 {
        assert(x.1.subrange(head.len() as int, head.len() as int + 3) =~= main.1);
    }
    if x.2 is None {
        let fx = functions_asm(main.0, fns);
        assert(fx.2 is None);
        lemma_functions_asm_labels(main.0, fns);
        assert(x.1 =~= head + main.1 + fx.1 + runtime_lines(fx.0.labels));
        assert forall|k: int| 0 <= k < fns.len() implies x.1.contains("_user_"@ + sanitized(#[trigger] fns[k].0) + ":"@) by {
            let i = choose|i: int| 0 <= i < fx.1.len() && fx.1[i] == "_user_"@ + sanitized(fns[k].0) + ":"@;
            assert(x.1[head.len() + main.1.len() + i] == fx.1[i]);
        }
    }
}

/// Whether `w` occurs in `t`.
pub open spec fn contains_text(t: Seq<char>, w: Seq<char>) -> bool {
    exists|p: int| 0 <= p && p + w.len() <= t.len() && #[trigger] t.subrange(p, p + w.len()) == w
}

/// The text of two runs of lines is the text of the first, then that of
/// the second.
proof fn lemma_line_text_append(a: Seq<Seq<char>>, b: Seq<Seq<char>>)
    ensures
        line_text(a + b) == line_text(a) + line_text(b),
    decreases b.len(),
{
    if b.len() == 0 {
        assert(a + b =~= a);
        assert(line_text(a) + line_text(b) =~= line_text(a));
    } else {
        lemma_line_text_append(a, b.drop_last());
        assert((a + b).drop_last() =~= a + b.drop_last());
        assert((a + b).last() == b.last());
        assert(line_text(a + b) =~= line_text(a) + line_text(b));
    }
}

/// A run of lines after the first stands in the text behind a line break.
proof fn lemma_lines_in_text(lines: Seq<Seq<char>>, i: int, m: int)
    requires
        0 < i,
        0 <= m,
        i + m <= lines.len(),
    ensures
        contains_text(line_text(lines), seq!['\n'] + line_text(lines.subrange(i, i + m))),
{
    let a = lines.take(i);
    let b = lines.subrange(i, i + m);
    let c = lines.skip(i + m);
    assert(lines =~= a + b + c);
    lemma_line_text_append(a + b, c);
    lemma_line_text_append(a, b);
    let ta = line_text(a);
    assert(ta == line_text(a.drop_last()) + a.last() + seq!['\n']);
    let t = line_text(lines);
    let w = seq!['\n'] + line_text(b);
    let p = ta.len() - 1;
    assert(t =~= ta + line_text(b) + line_text(c));
    assert(ta[p] == '\n');
    assert(t.subrange(p, p + w.len()) =~= w);
}

/// The text of lines that start with the entry symbol, the alignment and
/// the data section starts with those lines.
proof fn lemma_head_text(lines: Seq<Seq<char>>)
    requires
        lines.len() >= 4,
        lines.take(4) == seq![".global _main"@, ".align 4"@, ""@, ".data"@],
    ensures
        line_text(lines).take(30) == ".global _main\n.align 4\n\n.data\n"@,
{
    reveal_strlit(".global _main");
    reveal_strlit(".align 4");
    reveal_strlit("");
    reveal_strlit(".data");
    reveal_strlit(".global _main\n.align 4\n\n.data\n");
    let four = lines.take(4);
    assert(lines =~= four + lines.skip(4));
    lemma_line_text_append(four, lines.skip(4));
    let e = Seq::<Seq<char>>::empty();
    assert(line_text(e) =~= Seq::<char>::empty());
    assert(four.take(1).drop_last() =~= e);
    assert(four.take(1).last() == ".global _main"@);
    assert(line_text(four.take(1)) =~= ".global _main"@ + seq!['\n']);
    assert(four.take(2).drop_last() =~= four.take(1));
    assert(four.take(2).last() == ".align 4"@);
    assert(line_text(four.take(2)) =~= line_text(four.take(1)) + ".align 4"@ + seq!['\n']);
    assert(four.take(3).drop_last() =~= four.take(2));
    assert(four.take(3).last() == ""@);
    assert(line_text(four.take(3)) =~= line_text(four.take(2)) + ""@ + seq!['\n']);
    assert(four.take(4).drop_last() =~= four.take(3));
    assert(four.take(4) =~= four);
    assert(four.last() == ".data"@);
    assert(line_text(four) =~= line_text(four.take(3)) + ".data"@ + seq!['\n']);
    assert(line_text(four) =~= ".global _main\n.align 4\n\n.data\n"@);
}

/// The layout of a program's assembly text: it starts with the entry
/// symbol, the alignment and the data section; a program without
/// top-level code has the stub `_main:` returning zero; and, when no
/// instruction is refused, a `_user_<name>:` line for every user function.
pub proof fn law_program_text(g: GenView, global: Seq<InstrView>, fns: Seq<(Seq<char>, FunctionView)>, lits: Seq<Seq<char>>)
    ensures
        ({
            let x = program_asm(g, global, fns, lits);
            let t = line_text(x.1);
            &&& t.take(30) == ".global _main\n.align 4\n\n.data\n"@
            &&& global.len() == 0 ==> contains_text(t, "\n_main:\n    mov x0, #0\n    ret\n"@)
            &&& x.2 is None ==> forall|k: int| 0 <= k < fns.len() ==> contains_text(
                t,
                "\n_user_"@ + sanitized(#[trigger] fns[k].0) + ":\n"@,
            )
        }),
{
    law_program_layout(g, global, fns, lits);
    let x = program_asm(g, global, fns, lits);
    let t = line_text(x.1);
    let e = Seq::<Seq<char>>::empty();
    assert(line_text(e) =~= Seq::<char>::empty());
    lemma_head_text(x.1);
    let h = program_head(lits).len();
    if global.len() == 0 {
        let stub = x.1.subrange(h as int, h as int + 3);
        reveal_strlit("_main:");
        reveal_strlit("    mov x0, #0");
        reveal_strlit("    ret");
        reveal_strlit("_main:\n    mov x0, #0\n    ret\n");
        reveal_strlit("\n_main:\n    mov x0, #0\n    ret\n");
        lemma_lines_in_text(x.1, h as int, 3);
        assert(stub.drop_last().drop_last().drop_last() =~= e);
        assert(line_text(stub.drop_last().drop_last()) =~= stub[0] + seq!['\n']);
        assert(line_text(stub.drop_last()) =~= stub[0] + seq!['\n'] + stub[1] + seq!['\n']);
        assert(line_text(stub) =~= "_main:\n    mov x0, #0\n    ret\n"@);
        assert(seq!['\n'] + line_text(stub) =~= "\n_main:\n    mov x0, #0\n    ret\n"@);
    }
    if x.2 is None {
        assert forall|k: int| 0 <= k < fns.len() implies contains_text(t, "\n_user_"@ + sanitized(#[trigger] fns[k].0) + ":\n"@) by {
            let l = "_user_"@ + sanitized(fns[k].0) + ":"@;
            reveal_strlit("_user_");
            reveal_strlit(":");
            reveal_strlit("\n_user_");
            reveal_strlit(":\n");
            reveal_strlit(".global _main");
            let i = choose|i: int| 0 <= i < x.1.len() && x.1[i] == l;
            assert(l[0] == '_');
            assert(x.1[0] == x.1.take(4)[0]);
            assert(x.1[0][0] == '.');
            assert(i != 0);
            lemma_lines_in_text(x.1, i, 1);
            let one = x.1.subrange(i, i + 1);
            assert(one.drop_last() =~= e);
            assert(one[0] == l);
            assert(line_text(one) =~= l + seq!['\n']);
            assert(seq!['\n'] + line_text(one) =~= "\n_user_"@ + sanitized(fns[k].0) + ":\n"@);
        }
    }
}

/// Whether every list literal of `instrs` has a buffer size that fits an
/// `i64`.
fn lists_fit_in(instrs: &[IrInstr]) -> (r: bool)
    ensures
        r == lists_fit(instrs_view(instrs@)),
{
    let ghost is = instrs_view(instrs@);
    let mut j: usize = 0;
    while j < instrs.len()
        invariant
            0 <= j <= instrs.len(),
            is == instrs_view(instrs@),
            forall|k: int| 0 <= k < j && (#[trigger] is[k]) is AllocList ==> is[k]->AllocList_items.len() * 8 <= i64::MAX,
        decreases instrs.len() - j,
    {
        assert(is[j as int] == instrs@[j as int]@);
        match &instrs[j] {
            IrInstr::AllocList { items, .. } => {
                assert(is[j as int]->AllocList_items.len() == items@.len());
                if items.len() as u64 > 0x0fff_ffff_ffff_ffff {
                    return false;
                }
            },
            _ => {},
        }
        j = j + 1;
    }
    true
}

/// Whether the frame of a function with these parameters and this code
/// fits: its size in an `i32`, and each list literal's buffer in an `i64`.
fn frame_fits_in(params: &[String], instrs: &[IrInstr]) -> (r: bool)
    ensures
        r == frame_fits(names_view(params@), instrs_view(instrs@)),
{
    let dests = crate::arm64_text::frame_dest_names(instrs);
    let total: u128 = params.len() as u128 + dests.len() as u128 + instrs.len() as u128 + 1;
    if total > 268_435_453 {
        return false;
    }
    lists_fit_in(instrs)
}

impl Arm64CodeGen {
    /// Whether `program` fits this generator's counters: what `generate`
    /// needs of it.
    pub fn fits(&self, program: &IrProgram) -> (r: bool)
        ensures
            r == program_fits(gen_view(self), program),
    {
        let none: Vec<String> = Vec::new();
        assert(names_view(none@) =~= Seq::<Seq<char>>::empty());
        if !frame_fits_in(none.as_slice(), program.global_code.as_slice()) {
            return false;
        }
        let ghost fvs = function_views(program);
        let max: u128 = usize::MAX as u128;
        let mut budget: u128 = self.label_count() as u128 + 5 + 4 * (program.global_code.len() as u128) + 9;
        if budget > max {
            proof {
                lemma_fns_label_budget_prefix(fvs, 0);
            }
            return false;
        }
        let n = program.functions.len();
        let mut k: usize = 0;
        assert(fvs.take(0) =~= Seq::<FunctionView>::empty());
        while k < n
            invariant
                0 <= k <= n,
                n == program.functions.pairs().len(),
                fvs == function_views(program),
                budget <= max,
                max == usize::MAX,
                budget == self.labels_made() + fn_label_budget(program.global_code@.len()) + fns_label_budget(fvs.take(k as int)) + runtime_label_count(),
                forall|j: int| 0 <= j < k ==> frame_fits(#[trigger] fvs[j].params, fvs[j].instructions),
            decreases n - k,
        {
            let f = program.functions.value_at(k);
            assert(fvs[k as int] == f@);
            assert(fvs.take(k + 1).drop_last() =~= fvs.take(k as int));
            assert(fvs.take(k + 1).last() == f@);
            if !frame_fits_in(f.params.as_slice(), f.instructions.as_slice()) {
                assert(!frame_fits(fvs[k as int].params, fvs[k as int].instructions));
                return false;
            }
            budget = budget + 5 + 4 * (f.instructions.len() as u128);
            if budget > max {
                proof {
                    lemma_fns_label_budget_prefix(fvs, k + 1);
                }
                return false;
            }
            k = k + 1;
        }
        assert(fvs.take(n as int) =~= fvs);
        true
    }
}

} // verus!
