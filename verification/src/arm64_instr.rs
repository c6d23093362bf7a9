//! The ARM64 assembly text of each IR instruction.

use vstd::prelude::*;
use crate::arm64_text::Arm64CodeGen;
use crate::ir::{IrInstr, IrValue, InstrView, ConstView, names_view, opt_view};
use crate::arm64_text::push_line;
use crate::number::{double_to_i64, double_to_int};
use crate::text::{concat, decimal, signed_decimal, u64_to_text, i64_to_text, same_text};

verus! {

/// What the text of an instruction depends on: the frame's slots (as a map
/// and in the order they were made), how many labels were handed out, the
/// epilogue label and the string literals' data labels.
pub struct GenView {
    pub offsets: Map<Seq<char>, i32>,
    pub slots: Seq<(Seq<char>, i32)>,
    pub labels: nat,
    pub epilogue: Seq<char>,
    pub strings: Map<Seq<char>, Seq<char>>,
}

/// The generator's state as a `GenView`.
pub open spec fn gen_view(g: &Arm64CodeGen) -> GenView {
    GenView {
        offsets: g.offsets(),
        slots: g.slots(),
        labels: g.labels_made(),
        epilogue: g.epilogue(),
        strings: g.strings(),
    }
}

/// The lines that load `var` into `reg`.
pub open spec fn load_lines(g: GenView, reg: Seq<char>, var: Seq<char>) -> Seq<Seq<char>> {
    if g.offsets.contains_key(var) {
        seq!["    ldr "@ + reg + ", [sp, #"@ + signed_decimal(g.offsets[var] as int) + "]"@]
    } else {
        seq!["    // Warning: variable "@ + var + " not found in stack frame"@, "    mov "@ + reg + ", #0"@]
    }
}

/// The state after storing into `var`: a variable without a slot gets the
/// next one.
pub open spec fn after_store(g: GenView, var: Seq<char>) -> GenView {
    if g.offsets.contains_key(var) {
        g
    } else {
        GenView {
            offsets: g.offsets.insert(var, (g.offsets.len() * 8) as i32),
            slots: g.slots.push((var, (g.offsets.len() * 8) as i32)),
            ..g
        }
    }
}

/// The line that stores `reg` into `var`.
pub open spec fn store_line(g: GenView, var: Seq<char>, reg: Seq<char>) -> Seq<char> {
    "    str "@ + reg + ", [sp, #"@ + signed_decimal(after_store(g, var).offsets[var] as int) + "]"@
}

/// A name with every `-` made `_`.
pub open spec fn sanitized(n: Seq<char>) -> Seq<char> {
    n.map_values(|c: char| if c == '-' { '_' } else { c })
}

/// The data label of a string literal; `.str0` for one without.
pub open spec fn data_label(g: GenView, text: Seq<char>) -> Seq<char> {
    if g.strings.contains_key(text) {
        g.strings[text]
    } else {
        ".str0"@
    }
}

/// The label numbered `n`.
pub open spec fn label_at(n: nat) -> Seq<char> {
    ".L"@ + decimal(n)
}

/// Whether a call goes to a runtime routine rather than a user function.
pub open spec fn is_builtin(f: Seq<char>) -> bool {
    f == "len"@
        || f == "keys"@
        || f == "values"@
        || f == "range"@
        || f == "spawn"@
        || f == "sleep"@
        || f == "type"@
        || f == "is_map"@
        || f == "is_list"@
        || f == "is_string"@
        || f == "str"@
        || f == "num"@
        || f == "bool"@
}

/// The register that carries argument `i`.
pub open spec fn arg_reg(i: nat) -> Seq<char> {
    "x"@ + decimal(i)
}

/// The loads of the first `k` arguments into their registers.
pub open spec fn arg_loads(g: GenView, args: Seq<Seq<char>>, k: int) -> Seq<Seq<char>>
    decreases k,
{
    if k <= 0 {
        seq![]
    } else {
        arg_loads(g, args, k - 1) + load_lines(g, arg_reg((k - 1) as nat), args[k - 1])
    }
}

/// The reference-count increments of arguments `1..k`.
pub open spec fn borrow_lines(k: int) -> Seq<Seq<char>>
    decreases k,
{
    if k <= 1 {
        seq![]
    } else {
        borrow_lines(k - 1) + seq!["    mov x0, x"@ + decimal((k - 1) as nat), "    bl _inc_rc"@]
    }
}

/// The stores of the first `k` items of a list literal into its buffer.
pub open spec fn item_lines(g: GenView, items: Seq<Seq<char>>, k: int) -> Seq<Seq<char>>
    decreases k,
{
    if k <= 0 {
        seq![]
    } else {
        item_lines(g, items, k - 1) + load_lines(g, "x0"@, items[k - 1]) + seq![
            "    bl _inc_rc"@,
            "    str x0, [x20, #"@ + decimal(((k - 1) * 8) as nat) + "]"@,
        ]
    }
}

/// Both operands into `x0` and `x1`, then `ops`, then `x0` stored into
/// `dest`.
pub open spec fn binary_lines(g: GenView, dest: Seq<char>, left: Seq<char>, right: Seq<char>, ops: Seq<Seq<char>>) -> (
    GenView,
    Seq<Seq<char>>,
) {
    (after_store(g, dest), load_lines(g, "x0"@, left) + load_lines(g, "x1"@, right) + ops + seq![store_line(g, dest, "x0"@)])
}

/// The code of a call: arguments into `x0..x7`, each borrowed, the call,
/// then the result stored or released.
pub open spec fn call_lines(g: GenView, dest: Option<Seq<char>>, func: Seq<char>, args: Seq<Seq<char>>) -> (
    GenView,
    Seq<Seq<char>>,
) {
    let n = args.len() as int;
    let borrow = if n > 0 {
        seq!["    mov x19, x0"@] + borrow_lines(n) + seq!["    mov x0, x19"@, "    bl _inc_rc"@]
    } else {
        seq![]
    };
    let target = if is_builtin(func) { "_"@ + sanitized(func) } else { "_user_"@ + sanitized(func) };
    let body = arg_loads(g, args, n) + borrow + seq!["    bl "@ + target];
    match dest {
        Some(d) => (after_store(g, d), body + seq![store_line(g, d, "x0"@)]),
        None => (g, body + seq!["    bl _dec_rc"@]),
    }
}

/// The code of a keyboard read into `dest` after showing `prompt`.
pub open spec fn input_lines(g: GenView, dest: Seq<char>, prompt: Seq<char>) -> (GenView, Seq<Seq<char>>) {
    let show = if g.strings.contains_key(prompt) {
        seq!["    adrp x0, "@ + g.strings[prompt] + "@PAGE"@, "    add x0, x0, "@ + g.strings[prompt] + "@PAGEOFF"@]
    } else {
        load_lines(g, "x0"@, prompt)
    };
    let a = label_at(g.labels);
    let b = label_at(g.labels + 1);
    let c = label_at(g.labels + 2);
    let g1 = GenView { labels: g.labels + 3, ..g };
    (after_store(g1, dest), show + seq!["    bl _print_val"@, "    mov x0, #288"@, "    bl _malloc"@, "    mov x19, x0"@, "    mov x0, #3"@, "    str x0, [x19, #0]"@, "    mov x0, #1"@, "    str x0, [x19, #8]"@, "    add x1, x19, #24"@, "    mov x2, #255"@, "    mov x0, #0"@, "    mov x16, #3"@, "    svc #0x80"@, "    mov x2, x0"@, "    add x1, x19, #24"@] + seq![
        "    cbz x2, "@ + a,
        "    sub x2, x2, #1"@,
        "    add x4, x1, x2"@,
        "    ldrb w3, [x4]"@,
        "    cmp w3, #10"@,
        "    b.ne "@ + b,
        "    mov w3, #0"@,
        "    strb w3, [x4]"@,
        "    b "@ + c,
        b + ":"@,
        "    add x2, x2, #1"@,
        "    add x4, x1, x2"@,
        "    mov w3, #0"@,
        "    strb w3, [x4]"@,
        c + ":"@,
        "    str x2, [x19, #16]"@,
        a + ":"@,
    ] + load_lines(g1, "x0"@, dest) + seq!["    bl _dec_rc"@, store_line(g1, dest, "x19"@)])
}

/// The code that stores `value` at `index` of the list or map in `src`.
pub open spec fn set_index_lines(g: GenView, src: Seq<char>, index: Seq<char>, value: Seq<char>) -> (GenView, Seq<Seq<char>>) {
    let end = label_at(g.labels);
    let list = label_at(g.labels + 1);
    let map = label_at(g.labels + 2);
    let err = label_at(g.labels + 3);
    (GenView { labels: g.labels + 4, ..g }, load_lines(g, "x19"@, src) + load_lines(g, "x20"@, index) + load_lines(g, "x21"@, value) + seq![
        "    cbz x19, "@ + err,
        "    ldr x0, [x19, #0]"@,
        "    cmp x0, #1"@,
        "    b.eq "@ + list,
        "    cmp x0, #2"@,
        "    b.eq "@ + map,
        "    b "@ + err,
        list + ":"@,
        "    ldr x22, [x19, #16]"@,
        "    cmp x20, x22"@,
        "    b.ge "@ + err,
        "    ldr x23, [x19, #24]"@,
        "    ldr x0, [x23, x20, lsl #3]"@,
        "    bl _dec_rc"@,
        "    mov x0, x21"@,
        "    bl _inc_rc"@,
        "    str x21, [x23, x20, lsl #3]"@,
        "    b "@ + end,
        map + ":"@,
    ] + seq!["    ldr x22, [x19, #16]"@, "    ldr x23, [x19, #24]"@, "    mov x0, x20"@, "    bl _inc_rc"@, "    mov x0, x21"@, "    bl _inc_rc"@, "    add x24, x22, #1"@, "    lsl x0, x24, #4"@, "    mov x25, x0"@, "    mov x0, x23"@, "    mov x1, x25"@, "    bl _realloc"@, "    str x0, [x19, #24]"@, "    mov x23, x0"@, "    lsl x26, x22, #4"@, "    add x27, x23, x26"@, "    str x20, [x27, #0]"@, "    str x21, [x27, #8]"@, "    str x24, [x19, #16]"@] + seq![err + ":"@, "    // Handle error (quietly for now)"@, end + ":"@])
}

/// The code that reads or writes a member through a data label for its
/// name; `tail` follows the label's address in `x20`.
pub open spec fn member_lines(g: GenView, member: Seq<char>, tail: Seq<Seq<char>>) -> Seq<Seq<char>> {
    let l = label_at(g.labels);
    seq![
        ".data"@,
        l + ": .asciz \""@ + member + "\""@,
        ".text"@,
        "    adrp x20, "@ + l + "@PAGE"@,
        "    add x20, x20, "@ + l + "@PAGEOFF"@,
    ] + tail
}

/// The assembly of one instruction from state `g`: the state after it, its
/// lines, and the error it is refused with, if any.
pub open spec fn instr_asm(g: GenView, i: InstrView) -> (GenView, Seq<Seq<char>>, Option<Seq<char>>) {
    match i {
        InstrView::Label { name } => (g, seq![sanitized(name) + ":"@], None),
        InstrView::Jump { label } => (g, seq!["    b "@ + sanitized(label)], None),
        InstrView::JumpIf { cond, label } => (g, load_lines(g, "x0"@, cond) + seq!["    cmp x0, #0"@, "    b.ne "@ + sanitized(label)], None),
        InstrView::LoadConst { dest, value } => {
            let first = match value {
                ConstView::Number(n) => seq!["    mov x0, #"@ + signed_decimal(double_to_int(n))],
                ConstView::String(s) => seq!["    adrp x0, "@ + data_label(g, s) + "@PAGE"@, "    add x0, x0, "@ + data_label(g, s) + "@PAGEOFF"@],
                ConstView::Bool(b) => seq![if b { "    mov x0, #1"@ } else { "    mov x0, #0"@ }],
            };
            (after_store(g, dest), first + seq![store_line(g, dest, "x0"@)], None)
        },
        InstrView::Add { dest, left, right } => {
            let (g1, ls) = binary_lines(g, dest, left, right, seq!["    add x0, x0, x1"@]);
            (g1, ls, None)
        },
        InstrView::Sub { dest, left, right } => {
            let (g1, ls) = binary_lines(g, dest, left, right, seq!["    sub x0, x0, x1"@]);
            (g1, ls, None)
        },
        InstrView::Mul { dest, left, right } => {
            let (g1, ls) = binary_lines(g, dest, left, right, seq!["    mul x0, x0, x1"@]);
            (g1, ls, None)
        },
        InstrView::Div { dest, left, right } => {
            let (g1, ls) = binary_lines(g, dest, left, right, seq!["    sdiv x0, x0, x1"@]);
            (g1, ls, None)
        },
        InstrView::Eq { dest, left, right } => {
            let (g1, ls) = binary_lines(g, dest, left, right, seq!["    cmp x0, x1"@, "    cset x0, eq"@]);
            (g1, ls, None)
        },
        InstrView::Ne { dest, left, right } => {
            let (g1, ls) = binary_lines(g, dest, left, right, seq!["    cmp x0, x1"@, "    cset x0, ne"@]);
            (g1, ls, None)
        },
        InstrView::Lt { dest, left, right } => {
            let (g1, ls) = binary_lines(g, dest, left, right, seq!["    cmp x0, x1"@, "    cset x0, lt"@]);
            (g1, ls, None)
        },
        InstrView::Gt { dest, left, right } => {
            let (g1, ls) = binary_lines(g, dest, left, right, seq!["    cmp x0, x1"@, "    cset x0, gt"@]);
            (g1, ls, None)
        },
        InstrView::LogicAnd { dest, left, right } => {
            let (g1, ls) = binary_lines(g, dest, left, right, seq!["    cmp x0, #0"@, "    cset w2, ne"@, "    cmp x1, #0"@, "    cset w3, ne"@, "    and w0, w2, w3"@]);
            (g1, ls, None)
        },
        InstrView::LogicOr { dest, left, right } => {
            let (g1, ls) = binary_lines(g, dest, left, right, seq!["    cmp x0, #0"@, "    cset w2, ne"@, "    cmp x1, #0"@, "    cset w3, ne"@, "    orr w0, w2, w3"@]);
            (g1, ls, None)
        },
        InstrView::FAdd { dest, left, right } => {
            let (g1, ls) = binary_lines(g, dest, left, right, seq!["    fmov d0, x0"@, "    fmov d1, x1"@, "    fadd d0, d0, d1"@, "    fmov x0, d0"@]);
            (g1, ls, None)
        },
        InstrView::FSub { dest, left, right } => {
            let (g1, ls) = binary_lines(g, dest, left, right, seq!["    fmov d0, x0"@, "    fmov d1, x1"@, "    fsub d0, d0, d1"@, "    fmov x0, d0"@]);
            (g1, ls, None)
        },
        InstrView::FMul { dest, left, right } => {
            let (g1, ls) = binary_lines(g, dest, left, right, seq!["    fmov d0, x0"@, "    fmov d1, x1"@, "    fmul d0, d0, d1"@, "    fmov x0, d0"@]);
            (g1, ls, None)
        },
        InstrView::FDiv { dest, left, right } => {
            let (g1, ls) = binary_lines(g, dest, left, right, seq!["    fmov d0, x0"@, "    fmov d1, x1"@, "    fdiv d0, d0, d1"@, "    fmov x0, d0"@]);
            (g1, ls, None)
        },
        InstrView::BitAnd { dest, left, right } => {
            let (g1, ls) = binary_lines(g, dest, left, right, seq!["    and x0, x0, x1"@]);
            (g1, ls, None)
        },
        InstrView::BitOr { dest, left, right } => {
            let (g1, ls) = binary_lines(g, dest, left, right, seq!["    orr x0, x0, x1"@]);
            (g1, ls, None)
        },
        InstrView::BitXor { dest, left, right } => {
            let (g1, ls) = binary_lines(g, dest, left, right, seq!["    eor x0, x0, x1"@]);
            (g1, ls, None)
        },
        InstrView::Shl { dest, left, right } => {
            let (g1, ls) = binary_lines(g, dest, left, right, seq!["    lsl x0, x0, x1"@]);
            (g1, ls, None)
        },
        InstrView::Shr { dest, left, right } => {
            let (g1, ls) = binary_lines(g, dest, left, right, seq!["    lsr x0, x0, x1"@]);
            (g1, ls, None)
        },
        InstrView::LogicNot { dest, src } => (
            after_store(g, dest),
            load_lines(g, "x0"@, src) + seq!["    cmp x0, #0"@, "    cset x0, eq"@, store_line(g, dest, "x0"@)],
            None,
        ),
        InstrView::BitNot { dest, src } => (
            after_store(g, dest),
            load_lines(g, "x0"@, src) + seq!["    mvn x0, x0"@, store_line(g, dest, "x0"@)],
            None,
        ),
        InstrView::Print { src } => (g, load_lines(g, "x0"@, src) + seq!["    bl _print_val"@, "    adrp x1, .newline@PAGE"@, "    add x1, x1, .newline@PAGEOFF"@, "    mov x2, #1"@, "    mov x0, #1"@, "    mov x16, #4"@, "    svc #0x80"@], None),
        InstrView::PrintNum { src } => (g, load_lines(g, "x1"@, src) + seq!["    bl _print_num"@], None),
        InstrView::Call { dest, func, args } => {
            if args.len() > 8 {
                (g, seq![], Some("ARM64 backend supports up to 8 call arguments (got "@ + decimal(args.len()) + ")"@))
            } else {
                let (g1, ls) = call_lines(g, dest, func, args);
                (g1, ls, None)
            }
        },
        InstrView::Return { value } => {
            let body = match value {
                Some(v) => load_lines(g, "x0"@, v) + seq!["    bl _inc_rc"@],
                None => seq!["    mov x0, #0"@],
            };
            (g, body + seq!["    b "@ + g.epilogue], None)
        },
        InstrView::Input { dest, prompt } => {
            let (g1, ls) = input_lines(g, dest, prompt);
            (g1, ls, None)
        },
        InstrView::AllocStruct { dest, .. } => (after_store(g, dest), seq!["    mov x0, #32"@, "    bl _malloc"@, "    mov x19, x0"@, "    mov x0, #4"@, "    str x0, [x19, #0]"@, "    mov x0, #1"@, "    str x0, [x19, #8]"@, "    str xzr, [x19, #16]"@, "    str xzr, [x19, #24]"@] + seq![store_line(g, dest, "x19"@)], None),
        InstrView::SetMember { obj, member, value } => (
            GenView { labels: g.labels + 1, ..g },
            load_lines(g, "x19"@, obj) + load_lines(g, "x21"@, value) + member_lines(g, member, seq![
                "    mov x0, x19"@,
                "    mov x1, x20"@,
                "    mov x2, x21"@,
                "    bl _set_struct_member"@,
            ]),
            None,
        ),
        InstrView::GetMember { dest, obj, member } => {
            let g1 = GenView { labels: g.labels + 1, ..g };
            (after_store(g1, dest), load_lines(g, "x19"@, obj) + member_lines(g, member, seq![
                "    mov x0, x19"@,
                "    mov x1, x20"@,
                "    bl _get_struct_member"@,
            ]) + seq![store_line(g1, dest, "x0"@)], None)
        },
        InstrView::AllocList { dest, items } => {
            let n = items.len() as int;
            (after_store(g, dest), seq!["    mov x0, #32"@, "    bl _malloc"@, "    mov x19, x0"@, "    mov x0, #1"@, "    str x0, [x19, #0]"@, "    mov x0, #1"@, "    str x0, [x19, #8]"@] + seq![
                "    mov x0, #"@ + decimal(n as nat),
                "    str x0, [x19, #16]"@,
                "    mov x0, #"@ + decimal((n * 8) as nat),
                "    bl _malloc"@,
                "    str x0, [x19, #24]"@,
                "    mov x20, x0"@,
            ] + item_lines(g, items, n) + seq![store_line(g, dest, "x19"@)], None)
        },
        InstrView::AllocMap { dest } => (after_store(g, dest), seq!["    mov x0, #32"@, "    bl _malloc"@, "    mov x19, x0"@, "    mov x0, #2"@, "    str x0, [x19, #0]"@, "    mov x0, #1"@, "    str x0, [x19, #8]"@, "    str xzr, [x19, #16]"@, "    str xzr, [x19, #24]"@] + seq![store_line(g, dest, "x19"@)], None),
        InstrView::GetMap { dest, map, key } => {
            let (g1, ls) = binary_lines(g, dest, map, key, seq!["    bl _get_map_generic"@, "    bl _inc_rc"@]);
            (g1, ls, None)
        },
        InstrView::SetMap { map, key, value } => (
            g,
            load_lines(g, "x19"@, map) + load_lines(g, "x20"@, key) + load_lines(g, "x21"@, value) + seq!["    ldr x22, [x19, #16]"@, "    ldr x23, [x19, #24]"@, "    mov x0, x20"@, "    bl _inc_rc"@, "    mov x0, x21"@, "    bl _inc_rc"@, "    add x24, x22, #1"@, "    lsl x0, x24, #4"@, "    mov x25, x0"@, "    mov x0, x23"@, "    mov x1, x25"@, "    bl _realloc"@, "    str x0, [x19, #24]"@, "    mov x23, x0"@, "    lsl x26, x22, #4"@, "    add x27, x23, x26"@, "    str x20, [x27, #0]"@, "    str x21, [x27, #8]"@, "    str x24, [x19, #16]"@],
            None,
        ),
        InstrView::GetIndex { dest, src, index } => {
            let (g1, ls) = binary_lines(g, dest, src, index, seq!["    bl _get_index"@]);
            (g1, ls, None)
        },
        InstrView::SetIndex { src, index, value } => {
            let (g1, ls) = set_index_lines(g, src, index, value);
            (g1, ls, None)
        },
        InstrView::Spawn { task } => (after_store(g, task), seq!["    bl _spawn"@, store_line(g, task, "x0"@)], None),
        InstrView::Await { dest, task } => (
            after_store(g, dest),
            load_lines(g, "x0"@, task) + seq!["    bl _await"@, store_line(g, dest, "x0"@)],
            None,
        ),
        InstrView::AllocFile { dest, path } => (after_store(g, dest), seq![
            "    adrp x0, "@ + data_label(g, path) + "@PAGE"@,
            "    add x0, x0, "@ + data_label(g, path) + "@PAGEOFF"@,
            "    bl _alloc_file"@,
            store_line(g, dest, "x0"@),
        ], None),
        InstrView::CloseFile { handle } => (g, load_lines(g, "x0"@, handle) + seq!["    bl _close_file"@], None),
        InstrView::Move { dest, src } => (after_store(g, dest), load_lines(g, "x0"@, src) + seq![store_line(g, dest, "x0"@)], None),
        InstrView::LinkFile { .. } | InstrView::Hardwire { .. } | InstrView::PreScan { .. } => (g, seq![], None),
    }
}

} // verus!

verus! {

/// Whether the generator can take the code of `i`: one more slot and four
/// more labels fit, and a list literal's buffer size fits an `i64`.
pub open spec fn asm_fits(g: &Arm64CodeGen, i: InstrView) -> bool {
    &&& (g.offsets().len() + 1) * 8 <= i32::MAX
    &&& g.labels_made() + 4 <= usize::MAX
    &&& match i {
        InstrView::AllocList { items, .. } => items.len() * 8 <= i64::MAX,
        _ => true,
    }
}

/// `after` is the generator after the code of `i` from state `before`, with
/// the lines it adds, and `r` is its outcome.
pub open spec fn asm_done(
    before: GenView,
    i: InstrView,
    lines_before: Seq<Seq<char>>,
    after: &Arm64CodeGen,
    r: Result<(), String>,
) -> bool {
    let x = instr_asm(before, i);
    &&& gen_view(after) == x.0
    &&& after.lines() == lines_before + x.1
    &&& match r {
        Ok(_) => x.2 is None,
        Err(m) => x.2 == Some(m@),
    }
}

/// `a` then `b`.
fn join(a: &str, b: &str) -> (r: String)
    ensures
        r@ == a@ + b@,
{
    concat(a, b)
}

/// `a`, `b`, then `c`.
fn join3(a: &str, b: &str, c: &str) -> (r: String)
    ensures
        r@ == a@ + b@ + c@,
{
    let ab = concat(a, b);
    concat(ab.as_str(), c)
}

/// Whether a call to `f` goes to a runtime routine.
fn builtin_call(f: &str) -> (r: bool)
    ensures
        r == is_builtin(f@),
{
    same_text(f, "len")
        || same_text(f, "keys")
        || same_text(f, "values")
        || same_text(f, "range")
        || same_text(f, "spawn")
        || same_text(f, "sleep")
        || same_text(f, "type")
        || same_text(f, "is_map")
        || same_text(f, "is_list")
        || same_text(f, "is_string")
        || same_text(f, "str")
        || same_text(f, "num")
        || same_text(f, "bool")
}


impl Arm64CodeGen {
    /// Appends the assembly of `instr`.
    pub fn generate_instruction(&mut self, instr: &IrInstr) -> (r: Result<(), String>)
        requires
            asm_fits(old(self), instr@),
        ensures
            asm_done(gen_view(old(self)), instr@, old(self).lines(), final(self), r),
            final(self).frame() == old(self).frame(),
    {
        match instr {
            IrInstr::Add { .. } => self.gen_add(instr),
            IrInstr::Sub { .. } => self.gen_sub(instr),
            IrInstr::Mul { .. } => self.gen_mul(instr),
            IrInstr::Div { .. } => self.gen_div(instr),
            IrInstr::Eq { .. } => self.gen_eq(instr),
            IrInstr::Ne { .. } => self.gen_ne(instr),
            IrInstr::Lt { .. } => self.gen_lt(instr),
            IrInstr::Gt { .. } => self.gen_gt(instr),
            IrInstr::LogicAnd { .. } => self.gen_logic_and(instr),
            IrInstr::LogicOr { .. } => self.gen_logic_or(instr),
            IrInstr::FAdd { .. } => self.gen_f_add(instr),
            IrInstr::FSub { .. } => self.gen_f_sub(instr),
            IrInstr::FMul { .. } => self.gen_f_mul(instr),
            IrInstr::FDiv { .. } => self.gen_f_div(instr),
            IrInstr::BitAnd { .. } => self.gen_bit_and(instr),
            IrInstr::BitOr { .. } => self.gen_bit_or(instr),
            IrInstr::BitXor { .. } => self.gen_bit_xor(instr),
            IrInstr::Shl { .. } => self.gen_shl(instr),
            IrInstr::Shr { .. } => self.gen_shr(instr),
            IrInstr::LogicNot { .. } => self.gen_logic_not(instr),
            IrInstr::BitNot { .. } => self.gen_bit_not(instr),
            IrInstr::GetMap { .. } => self.gen_get_map(instr),
            IrInstr::GetIndex { .. } => self.gen_get_index(instr),
            IrInstr::LoadConst { .. } => self.gen_load_const(instr),
            IrInstr::Label { .. } => self.gen_label(instr),
            IrInstr::Jump { .. } => self.gen_jump(instr),
            IrInstr::JumpIf { .. } => self.gen_jump_if(instr),
            IrInstr::Return { .. } => self.gen_return(instr),
            IrInstr::Print { .. } => self.gen_print(instr),
            IrInstr::PrintNum { .. } => self.gen_print_num(instr),
            IrInstr::Spawn { .. } => self.gen_spawn(instr),
            IrInstr::Await { .. } => self.gen_await(instr),
            IrInstr::CloseFile { .. } => self.gen_close_file(instr),
            IrInstr::Move { .. } => self.gen_move(instr),
            IrInstr::LinkFile { .. } => self.gen_link_file(instr),
            IrInstr::Hardwire { .. } => self.gen_hardwire(instr),
            IrInstr::PreScan { .. } => self.gen_pre_scan(instr),
            IrInstr::AllocStruct { .. } => self.gen_alloc_struct(instr),
            IrInstr::AllocMap { .. } => self.gen_alloc_map(instr),
            IrInstr::SetMember { .. } => self.gen_set_member(instr),
            IrInstr::GetMember { .. } => self.gen_get_member(instr),
            IrInstr::SetMap { .. } => self.gen_set_map(instr),
            IrInstr::SetIndex { .. } => self.gen_set_index(instr),
            IrInstr::AllocFile { .. } => self.gen_alloc_file(instr),
            IrInstr::Input { .. } => self.gen_input(instr),
            IrInstr::Call { .. } => self.gen_call(instr),
            IrInstr::AllocList { .. } => self.gen_list(instr),
        }
    }

    /// `+`: the sum of the operands.
    fn gen_add(&mut self, instr: &IrInstr) -> (r: Result<(), String>)
        requires
            asm_fits(old(self), instr@),
            instr@ is Add,
        ensures
            asm_done(gen_view(old(self)), instr@, old(self).lines(), final(self), r),
            final(self).frame() == old(self).frame(),
    {
        let ghost g = gen_view(self);
        match instr {
            IrInstr::Add { dest, left, right } => {
                self.load_var("x0", left.as_str());
                self.load_var("x1", right.as_str());
                self.emit("    add x0, x0, x1");
                self.store_var(dest.as_str(), "x0");
                proof {
                    assert(self.lines() =~= old(self).lines() + (binary_lines(g, dest@, left@, right@, seq!["    add x0, x0, x1"@]).1));
                }
                Ok(())
            },
            _ => {
                proof {
                    assert(false);
                }
                Ok(())
            },
        }
    }

    /// `-`: the difference of the operands.
    fn gen_sub(&mut self, instr: &IrInstr) -> (r: Result<(), String>)
        requires
            asm_fits(old(self), instr@),
            instr@ is Sub,
        ensures
            asm_done(gen_view(old(self)), instr@, old(self).lines(), final(self), r),
            final(self).frame() == old(self).frame(),
    {
        let ghost g = gen_view(self);
        match instr {
            IrInstr::Sub { dest, left, right } => {
                self.load_var("x0", left.as_str());
                self.load_var("x1", right.as_str());
                self.emit("    sub x0, x0, x1");
                self.store_var(dest.as_str(), "x0");
                proof {
                    assert(self.lines() =~= old(self).lines() + (binary_lines(g, dest@, left@, right@, seq!["    sub x0, x0, x1"@]).1));
                }
                Ok(())
            },
            _ => {
                proof {
                    assert(false);
                }
                Ok(())
            },
        }
    }

    /// `*`: the product of the operands.
    fn gen_mul(&mut self, instr: &IrInstr) -> (r: Result<(), String>)
        requires
            asm_fits(old(self), instr@),
            instr@ is Mul,
        ensures
            asm_done(gen_view(old(self)), instr@, old(self).lines(), final(self), r),
            final(self).frame() == old(self).frame(),
    {
        let ghost g = gen_view(self);
        match instr {
            IrInstr::Mul { dest, left, right } => {
                self.load_var("x0", left.as_str());
                self.load_var("x1", right.as_str());
                self.emit("    mul x0, x0, x1");
                self.store_var(dest.as_str(), "x0");
                proof {
                    assert(self.lines() =~= old(self).lines() + (binary_lines(g, dest@, left@, right@, seq!["    mul x0, x0, x1"@]).1));
                }
                Ok(())
            },
            _ => {
                proof {
                    assert(false);
                }
                Ok(())
            },
        }
    }

    /// `/`: the signed quotient of the operands.
    fn gen_div(&mut self, instr: &IrInstr) -> (r: Result<(), String>)
        requires
            asm_fits(old(self), instr@),
            instr@ is Div,
        ensures
            asm_done(gen_view(old(self)), instr@, old(self).lines(), final(self), r),
            final(self).frame() == old(self).frame(),
    {
        let ghost g = gen_view(self);
        match instr {
            IrInstr::Div { dest, left, right } => {
                self.load_var("x0", left.as_str());
                self.load_var("x1", right.as_str());
                self.emit("    sdiv x0, x0, x1");
                self.store_var(dest.as_str(), "x0");
                proof {
                    assert(self.lines() =~= old(self).lines() + (binary_lines(g, dest@, left@, right@, seq!["    sdiv x0, x0, x1"@]).1));
                }
                Ok(())
            },
            _ => {
                proof {
                    assert(false);
                }
                Ok(())
            },
        }
    }

    /// `==` as 0 or 1.
    fn gen_eq(&mut self, instr: &IrInstr) -> (r: Result<(), String>)
        requires
            asm_fits(old(self), instr@),
            instr@ is Eq,
        ensures
            asm_done(gen_view(old(self)), instr@, old(self).lines(), final(self), r),
            final(self).frame() == old(self).frame(),
    {
        let ghost g = gen_view(self);
        match instr {
            IrInstr::Eq { dest, left, right } => {
                self.load_var("x0", left.as_str());
                self.load_var("x1", right.as_str());
                self.emit("    cmp x0, x1");
                self.emit("    cset x0, eq");
                self.store_var(dest.as_str(), "x0");
                proof {
                    assert(self.lines() =~= old(self).lines() + (binary_lines(g, dest@, left@, right@, seq!["    cmp x0, x1"@, "    cset x0, eq"@]).1));
                }
                Ok(())
            },
            _ => {
                proof {
                    assert(false);
                }
                Ok(())
            },
        }
    }

    /// `!=` as 0 or 1.
    fn gen_ne(&mut self, instr: &IrInstr) -> (r: Result<(), String>)
        requires
            asm_fits(old(self), instr@),
            instr@ is Ne,
        ensures
            asm_done(gen_view(old(self)), instr@, old(self).lines(), final(self), r),
            final(self).frame() == old(self).frame(),
    {
        let ghost g = gen_view(self);
        match instr {
            IrInstr::Ne { dest, left, right } => {
                self.load_var("x0", left.as_str());
                self.load_var("x1", right.as_str());
                self.emit("    cmp x0, x1");
                self.emit("    cset x0, ne");
                self.store_var(dest.as_str(), "x0");
                proof {
                    assert(self.lines() =~= old(self).lines() + (binary_lines(g, dest@, left@, right@, seq!["    cmp x0, x1"@, "    cset x0, ne"@]).1));
                }
                Ok(())
            },
            _ => {
                proof {
                    assert(false);
                }
                Ok(())
            },
        }
    }

    /// `<` as 0 or 1.
    fn gen_lt(&mut self, instr: &IrInstr) -> (r: Result<(), String>)
        requires
            asm_fits(old(self), instr@),
            instr@ is Lt,
        ensures
            asm_done(gen_view(old(self)), instr@, old(self).lines(), final(self), r),
            final(self).frame() == old(self).frame(),
    {
        let ghost g = gen_view(self);
        match instr {
            IrInstr::Lt { dest, left, right } => {
                self.load_var("x0", left.as_str());
                self.load_var("x1", right.as_str());
                self.emit("    cmp x0, x1");
                self.emit("    cset x0, lt");
                self.store_var(dest.as_str(), "x0");
                proof {
                    assert(self.lines() =~= old(self).lines() + (binary_lines(g, dest@, left@, right@, seq!["    cmp x0, x1"@, "    cset x0, lt"@]).1));
                }
                Ok(())
            },
            _ => {
                proof {
                    assert(false);
                }
                Ok(())
            },
        }
    }

    /// `>` as 0 or 1.
    fn gen_gt(&mut self, instr: &IrInstr) -> (r: Result<(), String>)
        requires
            asm_fits(old(self), instr@),
            instr@ is Gt,
        ensures
            asm_done(gen_view(old(self)), instr@, old(self).lines(), final(self), r),
            final(self).frame() == old(self).frame(),
    {
        let ghost g = gen_view(self);
        match instr {
            IrInstr::Gt { dest, left, right } => {
                self.load_var("x0", left.as_str());
                self.load_var("x1", right.as_str());
                self.emit("    cmp x0, x1");
                self.emit("    cset x0, gt");
                self.store_var(dest.as_str(), "x0");
                proof {
                    assert(self.lines() =~= old(self).lines() + (binary_lines(g, dest@, left@, right@, seq!["    cmp x0, x1"@, "    cset x0, gt"@]).1));
                }
                Ok(())
            },
            _ => {
                proof {
                    assert(false);
                }
                Ok(())
            },
        }
    }

    /// Logical and of two truth values.
    fn gen_logic_and(&mut self, instr: &IrInstr) -> (r: Result<(), String>)
        requires
            asm_fits(old(self), instr@),
            instr@ is LogicAnd,
        ensures
            asm_done(gen_view(old(self)), instr@, old(self).lines(), final(self), r),
            final(self).frame() == old(self).frame(),
    {
        let ghost g = gen_view(self);
        match instr {
            IrInstr::LogicAnd { dest, left, right } => {
                self.load_var("x0", left.as_str());
                self.load_var("x1", right.as_str());
                {
                    let mut block: Vec<Vec<char>> = Vec::new();
                    push_line(&mut block, "    cmp x0, #0");
                    push_line(&mut block, "    cset w2, ne");
                    push_line(&mut block, "    cmp x1, #0");
                    push_line(&mut block, "    cset w3, ne");
                    push_line(&mut block, "    and w0, w2, w3");
                    assert(crate::chars::views(block@) =~= seq!["    cmp x0, #0"@, "    cset w2, ne"@, "    cmp x1, #0"@, "    cset w3, ne"@, "    and w0, w2, w3"@]);
                    self.emit_lines(&block);
                }
                self.store_var(dest.as_str(), "x0");
                proof {
                    assert(self.lines() =~= old(self).lines() + (binary_lines(g, dest@, left@, right@, seq!["    cmp x0, #0"@, "    cset w2, ne"@, "    cmp x1, #0"@, "    cset w3, ne"@, "    and w0, w2, w3"@]).1));
                }
                Ok(())
            },
            _ => {
                proof {
                    assert(false);
                }
                Ok(())
            },
        }
    }

    /// Logical or of two truth values.
    fn gen_logic_or(&mut self, instr: &IrInstr) -> (r: Result<(), String>)
        requires
            asm_fits(old(self), instr@),
            instr@ is LogicOr,
        ensures
            asm_done(gen_view(old(self)), instr@, old(self).lines(), final(self), r),
            final(self).frame() == old(self).frame(),
    {
        let ghost g = gen_view(self);
        match instr {
            IrInstr::LogicOr { dest, left, right } => {
                self.load_var("x0", left.as_str());
                self.load_var("x1", right.as_str());
                {
                    let mut block: Vec<Vec<char>> = Vec::new();
                    push_line(&mut block, "    cmp x0, #0");
                    push_line(&mut block, "    cset w2, ne");
                    push_line(&mut block, "    cmp x1, #0");
                    push_line(&mut block, "    cset w3, ne");
                    push_line(&mut block, "    orr w0, w2, w3");
                    assert(crate::chars::views(block@) =~= seq!["    cmp x0, #0"@, "    cset w2, ne"@, "    cmp x1, #0"@, "    cset w3, ne"@, "    orr w0, w2, w3"@]);
                    self.emit_lines(&block);
                }
                self.store_var(dest.as_str(), "x0");
                proof {
                    assert(self.lines() =~= old(self).lines() + (binary_lines(g, dest@, left@, right@, seq!["    cmp x0, #0"@, "    cset w2, ne"@, "    cmp x1, #0"@, "    cset w3, ne"@, "    orr w0, w2, w3"@]).1));
                }
                Ok(())
            },
            _ => {
                proof {
                    assert(false);
                }
                Ok(())
            },
        }
    }

    /// Double addition on the bit patterns in the slots.
    fn gen_f_add(&mut self, instr: &IrInstr) -> (r: Result<(), String>)
        requires
            asm_fits(old(self), instr@),
            instr@ is FAdd,
        ensures
            asm_done(gen_view(old(self)), instr@, old(self).lines(), final(self), r),
            final(self).frame() == old(self).frame(),
    {
        let ghost g = gen_view(self);
        match instr {
            IrInstr::FAdd { dest, left, right } => {
                self.load_var("x0", left.as_str());
                self.load_var("x1", right.as_str());
                {
                    let mut block: Vec<Vec<char>> = Vec::new();
                    push_line(&mut block, "    fmov d0, x0");
                    push_line(&mut block, "    fmov d1, x1");
                    push_line(&mut block, "    fadd d0, d0, d1");
                    push_line(&mut block, "    fmov x0, d0");
                    assert(crate::chars::views(block@) =~= seq!["    fmov d0, x0"@, "    fmov d1, x1"@, "    fadd d0, d0, d1"@, "    fmov x0, d0"@]);
                    self.emit_lines(&block);
                }
                self.store_var(dest.as_str(), "x0");
                proof {
                    assert(self.lines() =~= old(self).lines() + (binary_lines(g, dest@, left@, right@, seq!["    fmov d0, x0"@, "    fmov d1, x1"@, "    fadd d0, d0, d1"@, "    fmov x0, d0"@]).1));
                }
                Ok(())
            },
            _ => {
                proof {
                    assert(false);
                }
                Ok(())
            },
        }
    }

    /// Double subtraction on the bit patterns in the slots.
    fn gen_f_sub(&mut self, instr: &IrInstr) -> (r: Result<(), String>)
        requires
            asm_fits(old(self), instr@),
            instr@ is FSub,
        ensures
            asm_done(gen_view(old(self)), instr@, old(self).lines(), final(self), r),
            final(self).frame() == old(self).frame(),
    {
        let ghost g = gen_view(self);
        match instr {
            IrInstr::FSub { dest, left, right } => {
                self.load_var("x0", left.as_str());
                self.load_var("x1", right.as_str());
                {
                    let mut block: Vec<Vec<char>> = Vec::new();
                    push_line(&mut block, "    fmov d0, x0");
                    push_line(&mut block, "    fmov d1, x1");
                    push_line(&mut block, "    fsub d0, d0, d1");
                    push_line(&mut block, "    fmov x0, d0");
                    assert(crate::chars::views(block@) =~= seq!["    fmov d0, x0"@, "    fmov d1, x1"@, "    fsub d0, d0, d1"@, "    fmov x0, d0"@]);
                    self.emit_lines(&block);
                }
                self.store_var(dest.as_str(), "x0");
                proof {
                    assert(self.lines() =~= old(self).lines() + (binary_lines(g, dest@, left@, right@, seq!["    fmov d0, x0"@, "    fmov d1, x1"@, "    fsub d0, d0, d1"@, "    fmov x0, d0"@]).1));
                }
                Ok(())
            },
            _ => {
                proof {
                    assert(false);
                }
                Ok(())
            },
        }
    }

    /// Double multiplication on the bit patterns in the slots.
    fn gen_f_mul(&mut self, instr: &IrInstr) -> (r: Result<(), String>)
        requires
            asm_fits(old(self), instr@),
            instr@ is FMul,
        ensures
            asm_done(gen_view(old(self)), instr@, old(self).lines(), final(self), r),
            final(self).frame() == old(self).frame(),
    {
        let ghost g = gen_view(self);
        match instr {
            IrInstr::FMul { dest, left, right } => {
                self.load_var("x0", left.as_str());
                self.load_var("x1", right.as_str());
                {
                    let mut block: Vec<Vec<char>> = Vec::new();
                    push_line(&mut block, "    fmov d0, x0");
                    push_line(&mut block, "    fmov d1, x1");
                    push_line(&mut block, "    fmul d0, d0, d1");
                    push_line(&mut block, "    fmov x0, d0");
                    assert(crate::chars::views(block@) =~= seq!["    fmov d0, x0"@, "    fmov d1, x1"@, "    fmul d0, d0, d1"@, "    fmov x0, d0"@]);
                    self.emit_lines(&block);
                }
                self.store_var(dest.as_str(), "x0");
                proof {
                    assert(self.lines() =~= old(self).lines() + (binary_lines(g, dest@, left@, right@, seq!["    fmov d0, x0"@, "    fmov d1, x1"@, "    fmul d0, d0, d1"@, "    fmov x0, d0"@]).1));
                }
                Ok(())
            },
            _ => {
                proof {
                    assert(false);
                }
                Ok(())
            },
        }
    }

    /// Double division on the bit patterns in the slots.
    fn gen_f_div(&mut self, instr: &IrInstr) -> (r: Result<(), String>)
        requires
            asm_fits(old(self), instr@),
            instr@ is FDiv,
        ensures
            asm_done(gen_view(old(self)), instr@, old(self).lines(), final(self), r),
            final(self).frame() == old(self).frame(),
    {
        let ghost g = gen_view(self);
        match instr {
            IrInstr::FDiv { dest, left, right } => {
                self.load_var("x0", left.as_str());
                self.load_var("x1", right.as_str());
                {
                    let mut block: Vec<Vec<char>> = Vec::new();
                    push_line(&mut block, "    fmov d0, x0");
                    push_line(&mut block, "    fmov d1, x1");
                    push_line(&mut block, "    fdiv d0, d0, d1");
                    push_line(&mut block, "    fmov x0, d0");
                    assert(crate::chars::views(block@) =~= seq!["    fmov d0, x0"@, "    fmov d1, x1"@, "    fdiv d0, d0, d1"@, "    fmov x0, d0"@]);
                    self.emit_lines(&block);
                }
                self.store_var(dest.as_str(), "x0");
                proof {
                    assert(self.lines() =~= old(self).lines() + (binary_lines(g, dest@, left@, right@, seq!["    fmov d0, x0"@, "    fmov d1, x1"@, "    fdiv d0, d0, d1"@, "    fmov x0, d0"@]).1));
                }
                Ok(())
            },
            _ => {
                proof {
                    assert(false);
                }
                Ok(())
            },
        }
    }

    /// Bitwise and.
    fn gen_bit_and(&mut self, instr: &IrInstr) -> (r: Result<(), String>)
        requires
            asm_fits(old(self), instr@),
            instr@ is BitAnd,
        ensures
            asm_done(gen_view(old(self)), instr@, old(self).lines(), final(self), r),
            final(self).frame() == old(self).frame(),
    {
        let ghost g = gen_view(self);
        match instr {
            IrInstr::BitAnd { dest, left, right } => {
                self.load_var("x0", left.as_str());
                self.load_var("x1", right.as_str());
                self.emit("    and x0, x0, x1");
                self.store_var(dest.as_str(), "x0");
                proof {
                    assert(self.lines() =~= old(self).lines() + (binary_lines(g, dest@, left@, right@, seq!["    and x0, x0, x1"@]).1));
                }
                Ok(())
            },
            _ => {
                proof {
                    assert(false);
                }
                Ok(())
            },
        }
    }

    /// Bitwise or.
    fn gen_bit_or(&mut self, instr: &IrInstr) -> (r: Result<(), String>)
        requires
            asm_fits(old(self), instr@),
            instr@ is BitOr,
        ensures
            asm_done(gen_view(old(self)), instr@, old(self).lines(), final(self), r),
            final(self).frame() == old(self).frame(),
    {
        let ghost g = gen_view(self);
        match instr {
            IrInstr::BitOr { dest, left, right } => {
                self.load_var("x0", left.as_str());
                self.load_var("x1", right.as_str());
                self.emit("    orr x0, x0, x1");
                self.store_var(dest.as_str(), "x0");
                proof {
                    assert(self.lines() =~= old(self).lines() + (binary_lines(g, dest@, left@, right@, seq!["    orr x0, x0, x1"@]).1));
                }
                Ok(())
            },
            _ => {
                proof {
                    assert(false);
                }
                Ok(())
            },
        }
    }

    /// Bitwise exclusive or.
    fn gen_bit_xor(&mut self, instr: &IrInstr) -> (r: Result<(), String>)
        requires
            asm_fits(old(self), instr@),
            instr@ is BitXor,
        ensures
            asm_done(gen_view(old(self)), instr@, old(self).lines(), final(self), r),
            final(self).frame() == old(self).frame(),
    {
        let ghost g = gen_view(self);
        match instr {
            IrInstr::BitXor { dest, left, right } => {
                self.load_var("x0", left.as_str());
                self.load_var("x1", right.as_str());
                self.emit("    eor x0, x0, x1");
                self.store_var(dest.as_str(), "x0");
                proof {
                    assert(self.lines() =~= old(self).lines() + (binary_lines(g, dest@, left@, right@, seq!["    eor x0, x0, x1"@]).1));
                }
                Ok(())
            },
            _ => {
                proof {
                    assert(false);
                }
                Ok(())
            },
        }
    }

    /// Shift left.
    fn gen_shl(&mut self, instr: &IrInstr) -> (r: Result<(), String>)
        requires
            asm_fits(old(self), instr@),
            instr@ is Shl,
        ensures
            asm_done(gen_view(old(self)), instr@, old(self).lines(), final(self), r),
            final(self).frame() == old(self).frame(),
    {
        let ghost g = gen_view(self);
        match instr {
            IrInstr::Shl { dest, left, right } => {
                self.load_var("x0", left.as_str());
                self.load_var("x1", right.as_str());
                self.emit("    lsl x0, x0, x1");
                self.store_var(dest.as_str(), "x0");
                proof {
                    assert(self.lines() =~= old(self).lines() + (binary_lines(g, dest@, left@, right@, seq!["    lsl x0, x0, x1"@]).1));
                }
                Ok(())
            },
            _ => {
                proof {
                    assert(false);
                }
                Ok(())
            },
        }
    }

    /// Logical shift right.
    fn gen_shr(&mut self, instr: &IrInstr) -> (r: Result<(), String>)
        requires
            asm_fits(old(self), instr@),
            instr@ is Shr,
        ensures
            asm_done(gen_view(old(self)), instr@, old(self).lines(), final(self), r),
            final(self).frame() == old(self).frame(),
    {
        let ghost g = gen_view(self);
        match instr {
            IrInstr::Shr { dest, left, right } => {
                self.load_var("x0", left.as_str());
                self.load_var("x1", right.as_str());
                self.emit("    lsr x0, x0, x1");
                self.store_var(dest.as_str(), "x0");
                proof {
                    assert(self.lines() =~= old(self).lines() + (binary_lines(g, dest@, left@, right@, seq!["    lsr x0, x0, x1"@]).1));
                }
                Ok(())
            },
            _ => {
                proof {
                    assert(false);
                }
                Ok(())
            },
        }
    }

    /// Logical not: 1 for zero, else 0.
    fn gen_logic_not(&mut self, instr: &IrInstr) -> (r: Result<(), String>)
        requires
            asm_fits(old(self), instr@),
            instr@ is LogicNot,
        ensures
            asm_done(gen_view(old(self)), instr@, old(self).lines(), final(self), r),
            final(self).frame() == old(self).frame(),
    {
        let ghost g = gen_view(self);
        match instr {
            IrInstr::LogicNot { dest, src } => {
                self.load_var("x0", src.as_str());
                self.emit("    cmp x0, #0");
                self.emit("    cset x0, eq");
                self.store_var(dest.as_str(), "x0");
                proof {
                    assert(self.lines() =~= old(self).lines() + (load_lines(g, "x0"@, src@) + seq!["    cmp x0, #0"@, "    cset x0, eq"@, store_line(g, dest@, "x0"@)]));
                }
                Ok(())
            },
            _ => {
                proof {
                    assert(false);
                }
                Ok(())
            },
        }
    }

    /// Bitwise not.
    fn gen_bit_not(&mut self, instr: &IrInstr) -> (r: Result<(), String>)
        requires
            asm_fits(old(self), instr@),
            instr@ is BitNot,
        ensures
            asm_done(gen_view(old(self)), instr@, old(self).lines(), final(self), r),
            final(self).frame() == old(self).frame(),
    {
        let ghost g = gen_view(self);
        match instr {
            IrInstr::BitNot { dest, src } => {
                self.load_var("x0", src.as_str());
                self.emit("    mvn x0, x0");
                self.store_var(dest.as_str(), "x0");
                proof {
                    assert(self.lines() =~= old(self).lines() + (load_lines(g, "x0"@, src@) + seq!["    mvn x0, x0"@, store_line(g, dest@, "x0"@)]));
                }
                Ok(())
            },
            _ => {
                proof {
                    assert(false);
                }
                Ok(())
            },
        }
    }

    /// A map read through the runtime, the result borrowed.
    fn gen_get_map(&mut self, instr: &IrInstr) -> (r: Result<(), String>)
        requires
            asm_fits(old(self), instr@),
            instr@ is GetMap,
        ensures
            asm_done(gen_view(old(self)), instr@, old(self).lines(), final(self), r),
            final(self).frame() == old(self).frame(),
    {
        let ghost g = gen_view(self);
        match instr {
            IrInstr::GetMap { dest, map, key } => {
                self.load_var("x0", map.as_str());
                self.load_var("x1", key.as_str());
                self.emit("    bl _get_map_generic");
                self.emit("    bl _inc_rc");
                self.store_var(dest.as_str(), "x0");
                proof {
                    assert(self.lines() =~= old(self).lines() + (binary_lines(g, dest@, map@, key@, seq!["    bl _get_map_generic"@, "    bl _inc_rc"@]).1));
                }
                Ok(())
            },
            _ => {
                proof {
                    assert(false);
                }
                Ok(())
            },
        }
    }

    /// An indexed read through the runtime.
    fn gen_get_index(&mut self, instr: &IrInstr) -> (r: Result<(), String>)
        requires
            asm_fits(old(self), instr@),
            instr@ is GetIndex,
        ensures
            asm_done(gen_view(old(self)), instr@, old(self).lines(), final(self), r),
            final(self).frame() == old(self).frame(),
    {
        let ghost g = gen_view(self);
        match instr {
            IrInstr::GetIndex { dest, src, index } => {
                self.load_var("x0", src.as_str());
                self.load_var("x1", index.as_str());
                self.emit("    bl _get_index");
                self.store_var(dest.as_str(), "x0");
                proof {
                    assert(self.lines() =~= old(self).lines() + (binary_lines(g, dest@, src@, index@, seq!["    bl _get_index"@]).1));
                }
                Ok(())
            },
            _ => {
                proof {
                    assert(false);
                }
                Ok(())
            },
        }
    }

    /// A constant into `x0`, then stored: a number as its integer value, a string literal as its data label's address, a truth value as 0 or 1.
    fn gen_load_const(&mut self, instr: &IrInstr) -> (r: Result<(), String>)
        requires
            asm_fits(old(self), instr@),
            instr@ is LoadConst,
        ensures
            asm_done(gen_view(old(self)), instr@, old(self).lines(), final(self), r),
            final(self).frame() == old(self).frame(),
    {
        let ghost g = gen_view(self);
        match instr {
            IrInstr::LoadConst { dest, value } => {
                let ghost first = match value@ {
                    ConstView::Number(n) => seq!["    mov x0, #"@ + signed_decimal(double_to_int(n))],
                    ConstView::String(s) => seq!["    adrp x0, "@ + data_label(g, s) + "@PAGE"@, "    add x0, x0, "@ + data_label(g, s) + "@PAGEOFF"@],
                    ConstView::Bool(b) => seq![if b { "    mov x0, #1"@ } else { "    mov x0, #0"@ }],
                };
                match value {
                    IrValue::Number(n) => {
                        let v = double_to_i64(*n);
                        let t = i64_to_text(v);
                        let l = join("    mov x0, #", t.as_str());
                        self.emit(l.as_str());
                    },
                    IrValue::String(s) => {
                        let lab = match self.string_label(s.as_str()) {
                            Some(l) => l,
                            None => ".str0".to_string(),
                        };
                        let a = join3("    adrp x0, ", lab.as_str(), "@PAGE");
                        self.emit(a.as_str());
                        let b = join3("    add x0, x0, ", lab.as_str(), "@PAGEOFF");
                        self.emit(b.as_str());
                    },
                    IrValue::Bool(b) => {
                        if *b {
                            self.emit("    mov x0, #1");
                        } else {
                            self.emit("    mov x0, #0");
                        }
                    },
                }
                proof {
                    assert(self.lines() =~= old(self).lines() + first);
                }
                self.store_var(dest.as_str(), "x0");
                proof {
                    assert(self.lines() =~= old(self).lines() + (first + seq![store_line(g, dest@, "x0"@)]));
                }
                Ok(())
            },
            _ => {
                proof {
                    assert(false);
                }
                Ok(())
            },
        }
    }

    /// A label line.
    fn gen_label(&mut self, instr: &IrInstr) -> (r: Result<(), String>)
        requires
            asm_fits(old(self), instr@),
            instr@ is Label,
        ensures
            asm_done(gen_view(old(self)), instr@, old(self).lines(), final(self), r),
            final(self).frame() == old(self).frame(),
    {
        let ghost g = gen_view(self);
        match instr {
            IrInstr::Label { name } => {
                let n = self.sanitize(name.as_str());
                let l = join(n.as_str(), ":");
                self.emit(l.as_str());
                proof {
                    assert(self.lines() =~= old(self).lines() + (seq![sanitized(name@) + ":"@]));
                }
                Ok(())
            },
            _ => {
                proof {
                    assert(false);
                }
                Ok(())
            },
        }
    }

    /// An unconditional branch.
    fn gen_jump(&mut self, instr: &IrInstr) -> (r: Result<(), String>)
        requires
            asm_fits(old(self), instr@),
            instr@ is Jump,
        ensures
            asm_done(gen_view(old(self)), instr@, old(self).lines(), final(self), r),
            final(self).frame() == old(self).frame(),
    {
        let ghost g = gen_view(self);
        match instr {
            IrInstr::Jump { label } => {
                let n = self.sanitize(label.as_str());
                let l = join("    b ", n.as_str());
                self.emit(l.as_str());
                proof {
                    assert(self.lines() =~= old(self).lines() + (seq!["    b "@ + sanitized(label@)]));
                }
                Ok(())
            },
            _ => {
                proof {
                    assert(false);
                }
                Ok(())
            },
        }
    }

    /// A branch taken when the condition is not zero.
    fn gen_jump_if(&mut self, instr: &IrInstr) -> (r: Result<(), String>)
        requires
            asm_fits(old(self), instr@),
            instr@ is JumpIf,
        ensures
            asm_done(gen_view(old(self)), instr@, old(self).lines(), final(self), r),
            final(self).frame() == old(self).frame(),
    {
        let ghost g = gen_view(self);
        match instr {
            IrInstr::JumpIf { cond, label } => {
                self.load_var("x0", cond.as_str());
                self.emit("    cmp x0, #0");
                let n = self.sanitize(label.as_str());
                let l = join("    b.ne ", n.as_str());
                self.emit(l.as_str());
                proof {
                    assert(self.lines() =~= old(self).lines() + (load_lines(g, "x0"@, cond@) + seq!["    cmp x0, #0"@, "    b.ne "@ + sanitized(label@)]));
                }
                Ok(())
            },
            _ => {
                proof {
                    assert(false);
                }
                Ok(())
            },
        }
    }

    /// A return: the value, kept alive past the epilogue's releases, or zero; then a branch to the epilogue.
    fn gen_return(&mut self, instr: &IrInstr) -> (r: Result<(), String>)
        requires
            asm_fits(old(self), instr@),
            instr@ is Return,
        ensures
            asm_done(gen_view(old(self)), instr@, old(self).lines(), final(self), r),
            final(self).frame() == old(self).frame(),
    {
        let ghost g = gen_view(self);
        match instr {
            IrInstr::Return { value } => {
                let ghost body = match value {
                    Some(v) => load_lines(g, "x0"@, v@) + seq!["    bl _inc_rc"@],
                    None => seq!["    mov x0, #0"@],
                };
                match value {
                    Some(v) => {
                        self.load_var("x0", v.as_str());
                        self.emit("    bl _inc_rc");
                    },
                    None => {
                        self.emit("    mov x0, #0");
                    },
                }
                proof {
                    assert(self.lines() =~= old(self).lines() + body);
                }
                let e = self.epilogue_name();
                let l = join("    b ", e.as_str());
                self.emit(l.as_str());
                proof {
                    assert(self.lines() =~= old(self).lines() + (body + seq!["    b "@ + g.epilogue]));
                }
                Ok(())
            },
            _ => {
                proof {
                    assert(false);
                }
                Ok(())
            },
        }
    }

    /// A value printed, then a newline written to standard output.
    fn gen_print(&mut self, instr: &IrInstr) -> (r: Result<(), String>)
        requires
            asm_fits(old(self), instr@),
            instr@ is Print,
        ensures
            asm_done(gen_view(old(self)), instr@, old(self).lines(), final(self), r),
            final(self).frame() == old(self).frame(),
    {
        let ghost g = gen_view(self);
        match instr {
            IrInstr::Print { src } => {
                self.load_var("x0", src.as_str());
                {
                    let mut block: Vec<Vec<char>> = Vec::new();
                    push_line(&mut block, "    bl _print_val");
                    push_line(&mut block, "    adrp x1, .newline@PAGE");
                    push_line(&mut block, "    add x1, x1, .newline@PAGEOFF");
                    push_line(&mut block, "    mov x2, #1");
                    push_line(&mut block, "    mov x0, #1");
                    push_line(&mut block, "    mov x16, #4");
                    push_line(&mut block, "    svc #0x80");
                    assert(crate::chars::views(block@) =~= seq!["    bl _print_val"@, "    adrp x1, .newline@PAGE"@, "    add x1, x1, .newline@PAGEOFF"@, "    mov x2, #1"@, "    mov x0, #1"@, "    mov x16, #4"@, "    svc #0x80"@]);
                    self.emit_lines(&block);
                }
                proof {
                    assert(self.lines() =~= old(self).lines() + (load_lines(g, "x0"@, src@) + seq!["    bl _print_val"@, "    adrp x1, .newline@PAGE"@, "    add x1, x1, .newline@PAGEOFF"@, "    mov x2, #1"@, "    mov x0, #1"@, "    mov x16, #4"@, "    svc #0x80"@]));
                }
                Ok(())
            },
            _ => {
                proof {
                    assert(false);
                }
                Ok(())
            },
        }
    }

    /// A number printed.
    fn gen_print_num(&mut self, instr: &IrInstr) -> (r: Result<(), String>)
        requires
            asm_fits(old(self), instr@),
            instr@ is PrintNum,
        ensures
            asm_done(gen_view(old(self)), instr@, old(self).lines(), final(self), r),
            final(self).frame() == old(self).frame(),
    {
        let ghost g = gen_view(self);
        match instr {
            IrInstr::PrintNum { src } => {
                self.load_var("x1", src.as_str());
                self.emit("    bl _print_num");
                proof {
                    assert(self.lines() =~= old(self).lines() + (load_lines(g, "x1"@, src@) + seq!["    bl _print_num"@]));
                }
                Ok(())
            },
            _ => {
                proof {
                    assert(false);
                }
                Ok(())
            },
        }
    }

    /// A task started through the runtime.
    fn gen_spawn(&mut self, instr: &IrInstr) -> (r: Result<(), String>)
        requires
            asm_fits(old(self), instr@),
            instr@ is Spawn,
        ensures
            asm_done(gen_view(old(self)), instr@, old(self).lines(), final(self), r),
            final(self).frame() == old(self).frame(),
    {
        let ghost g = gen_view(self);
        match instr {
            IrInstr::Spawn { task } => {
                self.emit("    bl _spawn");
                self.store_var(task.as_str(), "x0");
                proof {
                    assert(self.lines() =~= old(self).lines() + (seq!["    bl _spawn"@, store_line(g, task@, "x0"@)]));
                }
                Ok(())
            },
            _ => {
                proof {
                    assert(false);
                }
                Ok(())
            },
        }
    }

    /// A task awaited through the runtime.
    fn gen_await(&mut self, instr: &IrInstr) -> (r: Result<(), String>)
        requires
            asm_fits(old(self), instr@),
            instr@ is Await,
        ensures
            asm_done(gen_view(old(self)), instr@, old(self).lines(), final(self), r),
            final(self).frame() == old(self).frame(),
    {
        let ghost g = gen_view(self);
        match instr {
            IrInstr::Await { dest, task } => {
                self.load_var("x0", task.as_str());
                self.emit("    bl _await");
                self.store_var(dest.as_str(), "x0");
                proof {
                    assert(self.lines() =~= old(self).lines() + (load_lines(g, "x0"@, task@) + seq!["    bl _await"@, store_line(g, dest@, "x0"@)]));
                }
                Ok(())
            },
            _ => {
                proof {
                    assert(false);
                }
                Ok(())
            },
        }
    }

    /// A file closed through the runtime.
    fn gen_close_file(&mut self, instr: &IrInstr) -> (r: Result<(), String>)
        requires
            asm_fits(old(self), instr@),
            instr@ is CloseFile,
        ensures
            asm_done(gen_view(old(self)), instr@, old(self).lines(), final(self), r),
            final(self).frame() == old(self).frame(),
    {
        let ghost g = gen_view(self);
        match instr {
            IrInstr::CloseFile { handle } => {
                self.load_var("x0", handle.as_str());
                self.emit("    bl _close_file");
                proof {
                    assert(self.lines() =~= old(self).lines() + (load_lines(g, "x0"@, handle@) + seq!["    bl _close_file"@]));
                }
                Ok(())
            },
            _ => {
                proof {
                    assert(false);
                }
                Ok(())
            },
        }
    }

    /// A copy from one slot to another.
    fn gen_move(&mut self, instr: &IrInstr) -> (r: Result<(), String>)
        requires
            asm_fits(old(self), instr@),
            instr@ is Move,
        ensures
            asm_done(gen_view(old(self)), instr@, old(self).lines(), final(self), r),
            final(self).frame() == old(self).frame(),
    {
        let ghost g = gen_view(self);
        match instr {
            IrInstr::Move { dest, src } => {
                self.load_var("x0", src.as_str());
                self.store_var(dest.as_str(), "x0");
                proof {
                    assert(self.lines() =~= old(self).lines() + (load_lines(g, "x0"@, src@) + seq![store_line(g, dest@, "x0"@)]));
                }
                Ok(())
            },
            _ => {
                proof {
                    assert(false);
                }
                Ok(())
            },
        }
    }

    /// No code: the native build handles this before code generation.
    fn gen_link_file(&mut self, instr: &IrInstr) -> (r: Result<(), String>)
        requires
            asm_fits(old(self), instr@),
            instr@ is LinkFile,
        ensures
            asm_done(gen_view(old(self)), instr@, old(self).lines(), final(self), r),
            final(self).frame() == old(self).frame(),
    {
        let ghost g = gen_view(self);
        match instr {
            IrInstr::LinkFile { .. } => {
                proof {
                    assert(self.lines() =~= old(self).lines() + (Seq::<Seq<char>>::empty()));
                }
                Ok(())
            },
            _ => {
                proof {
                    assert(false);
                }
                Ok(())
            },
        }
    }

    /// No code: the native build handles this before code generation.
    fn gen_hardwire(&mut self, instr: &IrInstr) -> (r: Result<(), String>)
        requires
            asm_fits(old(self), instr@),
            instr@ is Hardwire,
        ensures
            asm_done(gen_view(old(self)), instr@, old(self).lines(), final(self), r),
            final(self).frame() == old(self).frame(),
    {
        let ghost g = gen_view(self);
        match instr {
            IrInstr::Hardwire { .. } => {
                proof {
                    assert(self.lines() =~= old(self).lines() + (Seq::<Seq<char>>::empty()));
                }
                Ok(())
            },
            _ => {
                proof {
                    assert(false);
                }
                Ok(())
            },
        }
    }

    /// No code: the native build handles this before code generation.
    fn gen_pre_scan(&mut self, instr: &IrInstr) -> (r: Result<(), String>)
        requires
            asm_fits(old(self), instr@),
            instr@ is PreScan,
        ensures
            asm_done(gen_view(old(self)), instr@, old(self).lines(), final(self), r),
            final(self).frame() == old(self).frame(),
    {
        let ghost g = gen_view(self);
        match instr {
            IrInstr::PreScan { .. } => {
                proof {
                    assert(self.lines() =~= old(self).lines() + (Seq::<Seq<char>>::empty()));
                }
                Ok(())
            },
            _ => {
                proof {
                    assert(false);
                }
                Ok(())
            },
        }
    }

    /// A struct object: tag, count and empty fields.
    fn gen_alloc_struct(&mut self, instr: &IrInstr) -> (r: Result<(), String>)
        requires
            asm_fits(old(self), instr@),
            instr@ is AllocStruct,
        ensures
            asm_done(gen_view(old(self)), instr@, old(self).lines(), final(self), r),
            final(self).frame() == old(self).frame(),
    {
        let ghost g = gen_view(self);
        match instr {
            IrInstr::AllocStruct { dest, .. } => {
                {
                    let mut block: Vec<Vec<char>> = Vec::new();
                    push_line(&mut block, "    mov x0, #32");
                    push_line(&mut block, "    bl _malloc");
                    push_line(&mut block, "    mov x19, x0");
                    push_line(&mut block, "    mov x0, #4");
                    push_line(&mut block, "    str x0, [x19, #0]");
                    push_line(&mut block, "    mov x0, #1");
                    push_line(&mut block, "    str x0, [x19, #8]");
                    push_line(&mut block, "    str xzr, [x19, #16]");
                    push_line(&mut block, "    str xzr, [x19, #24]");
                    assert(crate::chars::views(block@) =~= seq!["    mov x0, #32"@, "    bl _malloc"@, "    mov x19, x0"@, "    mov x0, #4"@, "    str x0, [x19, #0]"@, "    mov x0, #1"@, "    str x0, [x19, #8]"@, "    str xzr, [x19, #16]"@, "    str xzr, [x19, #24]"@]);
                    self.emit_lines(&block);
                }
                self.store_var(dest.as_str(), "x19");
                proof {
                    assert(self.lines() =~= old(self).lines() + (seq!["    mov x0, #32"@, "    bl _malloc"@, "    mov x19, x0"@, "    mov x0, #4"@, "    str x0, [x19, #0]"@, "    mov x0, #1"@, "    str x0, [x19, #8]"@, "    str xzr, [x19, #16]"@, "    str xzr, [x19, #24]"@] + seq![store_line(g, dest@, "x19"@)]));
                }
                Ok(())
            },
            _ => {
                proof {
                    assert(false);
                }
                Ok(())
            },
        }
    }

    /// A map object: tag, count and no entries.
    fn gen_alloc_map(&mut self, instr: &IrInstr) -> (r: Result<(), String>)
        requires
            asm_fits(old(self), instr@),
            instr@ is AllocMap,
        ensures
            asm_done(gen_view(old(self)), instr@, old(self).lines(), final(self), r),
            final(self).frame() == old(self).frame(),
    {
        let ghost g = gen_view(self);
        match instr {
            IrInstr::AllocMap { dest } => {
                {
                    let mut block: Vec<Vec<char>> = Vec::new();
                    push_line(&mut block, "    mov x0, #32");
                    push_line(&mut block, "    bl _malloc");
                    push_line(&mut block, "    mov x19, x0");
                    push_line(&mut block, "    mov x0, #2");
                    push_line(&mut block, "    str x0, [x19, #0]");
                    push_line(&mut block, "    mov x0, #1");
                    push_line(&mut block, "    str x0, [x19, #8]");
                    push_line(&mut block, "    str xzr, [x19, #16]");
                    push_line(&mut block, "    str xzr, [x19, #24]");
                    assert(crate::chars::views(block@) =~= seq!["    mov x0, #32"@, "    bl _malloc"@, "    mov x19, x0"@, "    mov x0, #2"@, "    str x0, [x19, #0]"@, "    mov x0, #1"@, "    str x0, [x19, #8]"@, "    str xzr, [x19, #16]"@, "    str xzr, [x19, #24]"@]);
                    self.emit_lines(&block);
                }
                self.store_var(dest.as_str(), "x19");
                proof {
                    assert(self.lines() =~= old(self).lines() + (seq!["    mov x0, #32"@, "    bl _malloc"@, "    mov x19, x0"@, "    mov x0, #2"@, "    str x0, [x19, #0]"@, "    mov x0, #1"@, "    str x0, [x19, #8]"@, "    str xzr, [x19, #16]"@, "    str xzr, [x19, #24]"@] + seq![store_line(g, dest@, "x19"@)]));
                }
                Ok(())
            },
            _ => {
                proof {
                    assert(false);
                }
                Ok(())
            },
        }
    }

    /// A member write through the runtime, the member named by a data label.
    fn gen_set_member(&mut self, instr: &IrInstr) -> (r: Result<(), String>)
        requires
            asm_fits(old(self), instr@),
            instr@ is SetMember,
        ensures
            asm_done(gen_view(old(self)), instr@, old(self).lines(), final(self), r),
            final(self).frame() == old(self).frame(),
    {
        let ghost g = gen_view(self);
        match instr {
            IrInstr::SetMember { obj, member, value } => {
                self.load_var("x19", obj.as_str());
                self.load_var("x21", value.as_str());
                self.emit_member_label(member.as_str());
                self.emit("    mov x0, x19");
                self.emit("    mov x1, x20");
                self.emit("    mov x2, x21");
                self.emit("    bl _set_struct_member");
                proof {
                    assert(self.lines() =~= old(self).lines() + (load_lines(g, "x19"@, obj@) + load_lines(g, "x21"@, value@) + member_lines(g, member@, seq!["    mov x0, x19"@, "    mov x1, x20"@, "    mov x2, x21"@, "    bl _set_struct_member"@])));
                }
                Ok(())
            },
            _ => {
                proof {
                    assert(false);
                }
                Ok(())
            },
        }
    }

    /// A member read through the runtime, the member named by a data label.
    fn gen_get_member(&mut self, instr: &IrInstr) -> (r: Result<(), String>)
        requires
            asm_fits(old(self), instr@),
            instr@ is GetMember,
        ensures
            asm_done(gen_view(old(self)), instr@, old(self).lines(), final(self), r),
            final(self).frame() == old(self).frame(),
    {
        let ghost g = gen_view(self);
        match instr {
            IrInstr::GetMember { dest, obj, member } => {
                self.load_var("x19", obj.as_str());
                self.emit_member_label(member.as_str());
                self.emit("    mov x0, x19");
                self.emit("    mov x1, x20");
                self.emit("    bl _get_struct_member");
                self.store_var(dest.as_str(), "x0");
                proof {
                    assert(self.lines() =~= old(self).lines() + (load_lines(g, "x19"@, obj@) + member_lines(g, member@, seq!["    mov x0, x19"@, "    mov x1, x20"@, "    bl _get_struct_member"@]) + seq![store_line(GenView { labels: g.labels + 1, ..g }, dest@, "x0"@)]));
                }
                Ok(())
            },
            _ => {
                proof {
                    assert(false);
                }
                Ok(())
            },
        }
    }

    /// A map write: the entry array grown by one and the key and value appended, both borrowed.
    fn gen_set_map(&mut self, instr: &IrInstr) -> (r: Result<(), String>)
        requires
            asm_fits(old(self), instr@),
            instr@ is SetMap,
        ensures
            asm_done(gen_view(old(self)), instr@, old(self).lines(), final(self), r),
            final(self).frame() == old(self).frame(),
    {
        let ghost g = gen_view(self);
        match instr {
            IrInstr::SetMap { map, key, value } => {
                self.load_var("x19", map.as_str());
                self.load_var("x20", key.as_str());
                self.load_var("x21", value.as_str());
                {
                    let mut block: Vec<Vec<char>> = Vec::new();
                    push_line(&mut block, "    ldr x22, [x19, #16]");
                    push_line(&mut block, "    ldr x23, [x19, #24]");
                    push_line(&mut block, "    mov x0, x20");
                    push_line(&mut block, "    bl _inc_rc");
                    push_line(&mut block, "    mov x0, x21");
                    push_line(&mut block, "    bl _inc_rc");
                    push_line(&mut block, "    add x24, x22, #1");
                    push_line(&mut block, "    lsl x0, x24, #4");
                    push_line(&mut block, "    mov x25, x0");
                    push_line(&mut block, "    mov x0, x23");
                    push_line(&mut block, "    mov x1, x25");
                    push_line(&mut block, "    bl _realloc");
                    push_line(&mut block, "    str x0, [x19, #24]");
                    push_line(&mut block, "    mov x23, x0");
                    push_line(&mut block, "    lsl x26, x22, #4");
                    push_line(&mut block, "    add x27, x23, x26");
                    push_line(&mut block, "    str x20, [x27, #0]");
                    push_line(&mut block, "    str x21, [x27, #8]");
                    push_line(&mut block, "    str x24, [x19, #16]");
                    assert(crate::chars::views(block@) =~= seq!["    ldr x22, [x19, #16]"@, "    ldr x23, [x19, #24]"@, "    mov x0, x20"@, "    bl _inc_rc"@, "    mov x0, x21"@, "    bl _inc_rc"@, "    add x24, x22, #1"@, "    lsl x0, x24, #4"@, "    mov x25, x0"@, "    mov x0, x23"@, "    mov x1, x25"@, "    bl _realloc"@, "    str x0, [x19, #24]"@, "    mov x23, x0"@, "    lsl x26, x22, #4"@, "    add x27, x23, x26"@, "    str x20, [x27, #0]"@, "    str x21, [x27, #8]"@, "    str x24, [x19, #16]"@]);
                    self.emit_lines(&block);
                }
                proof {
                    assert(self.lines() =~= old(self).lines() + (load_lines(g, "x19"@, map@) + load_lines(g, "x20"@, key@) + load_lines(g, "x21"@, value@) + seq!["    ldr x22, [x19, #16]"@, "    ldr x23, [x19, #24]"@, "    mov x0, x20"@, "    bl _inc_rc"@, "    mov x0, x21"@, "    bl _inc_rc"@, "    add x24, x22, #1"@, "    lsl x0, x24, #4"@, "    mov x25, x0"@, "    mov x0, x23"@, "    mov x1, x25"@, "    bl _realloc"@, "    str x0, [x19, #24]"@, "    mov x23, x0"@, "    lsl x26, x22, #4"@, "    add x27, x23, x26"@, "    str x20, [x27, #0]"@, "    str x21, [x27, #8]"@, "    str x24, [x19, #16]"@]));
                }
                Ok(())
            },
            _ => {
                proof {
                    assert(false);
                }
                Ok(())
            },
        }
    }

    /// An indexed write into a list or a map.
    fn gen_set_index(&mut self, instr: &IrInstr) -> (r: Result<(), String>)
        requires
            asm_fits(old(self), instr@),
            instr@ is SetIndex,
        ensures
            asm_done(gen_view(old(self)), instr@, old(self).lines(), final(self), r),
            final(self).frame() == old(self).frame(),
    {
        let ghost g = gen_view(self);
        match instr {
            IrInstr::SetIndex { src, index, value } => {
                self.emit_set_index(src, index, value);
                proof {
                    assert(self.lines() =~= old(self).lines() + (set_index_lines(g, src@, index@, value@).1));
                }
                Ok(())
            },
            _ => {
                proof {
                    assert(false);
                }
                Ok(())
            },
        }
    }

    /// A file opened through the runtime from the path's data label.
    fn gen_alloc_file(&mut self, instr: &IrInstr) -> (r: Result<(), String>)
        requires
            asm_fits(old(self), instr@),
            instr@ is AllocFile,
        ensures
            asm_done(gen_view(old(self)), instr@, old(self).lines(), final(self), r),
            final(self).frame() == old(self).frame(),
    {
        let ghost g = gen_view(self);
        match instr {
            IrInstr::AllocFile { dest, path } => {
                let lab = match self.string_label(path.as_str()) {
                    Some(l) => l,
                    None => ".str0".to_string(),
                };
                let a = join3("    adrp x0, ", lab.as_str(), "@PAGE");
                self.emit(a.as_str());
                let b = join3("    add x0, x0, ", lab.as_str(), "@PAGEOFF");
                self.emit(b.as_str());
                self.emit("    bl _alloc_file");
                self.store_var(dest.as_str(), "x0");
                proof {
                    assert(self.lines() =~= old(self).lines() + (seq!["    adrp x0, "@ + data_label(g, path@) + "@PAGE"@, "    add x0, x0, "@ + data_label(g, path@) + "@PAGEOFF"@, "    bl _alloc_file"@, store_line(g, dest@, "x0"@)]));
                }
                Ok(())
            },
            _ => {
                proof {
                    assert(false);
                }
                Ok(())
            },
        }
    }

    /// A fresh data label holding `member`, and its address in `x20`.
    fn emit_member_label(&mut self, member: &str)
        requires
            old(self).labels_made() < usize::MAX,
        ensures
            final(self).lines() == old(self).lines() + member_lines(gen_view(old(self)), member@, seq![]),
            gen_view(final(self)) == (GenView { labels: old(self).labels_made() + 1, ..gen_view(old(self)) }),
            final(self).frame() == old(self).frame(),
    {
        let l = self.fresh_label();
        self.emit(".data");
        let d = join3(l.as_str(), ": .asciz \"", member);
        let d2 = join(d.as_str(), "\"");
        self.emit(d2.as_str());
        self.emit(".text");
        let a = join3("    adrp x20, ", l.as_str(), "@PAGE");
        self.emit(a.as_str());
        let b = join3("    add x20, x20, ", l.as_str(), "@PAGEOFF");
        self.emit(b.as_str());
        proof {
            assert(self.lines() =~= old(self).lines() + (member_lines(gen_view(old(self)), member@, seq![])));
        }
    }

    /// A store through an index into a list or a map.
    fn emit_set_index(&mut self, src: &String, index: &String, value: &String)
        requires
            old(self).labels_made() + 4 <= usize::MAX,
        ensures
            final(self).lines() == old(self).lines() + set_index_lines(gen_view(old(self)), src@, index@, value@).1,
            gen_view(final(self)) == set_index_lines(gen_view(old(self)), src@, index@, value@).0,
            final(self).frame() == old(self).frame(),
    {
        let ghost g = gen_view(self);
        let end = self.fresh_label();
        let list = self.fresh_label();
        let map = self.fresh_label();
        let err = self.fresh_label();
        self.load_var("x19", src.as_str());
        self.load_var("x20", index.as_str());
        self.load_var("x21", value.as_str());
        let ghost loads = self.lines();
        assert(loads =~= old(self).lines() + (load_lines(g, "x19"@, src@) + load_lines(g, "x20"@, index@) + load_lines(g, "x21"@, value@)));
        let l1 = join("    cbz x19, ", err.as_str());
        let l2 = join("    b.eq ", list.as_str());
        let l3 = join("    b.eq ", map.as_str());
        let l4 = join("    b ", err.as_str());
        let l5 = join(list.as_str(), ":");
        let l6 = join("    b.ge ", err.as_str());
        let l7 = join("    b ", end.as_str());
        let l8 = join(map.as_str(), ":");
        let mut block: Vec<Vec<char>> = Vec::new();
        push_line(&mut block, l1.as_str());
        push_line(&mut block, "    ldr x0, [x19, #0]");
        push_line(&mut block, "    cmp x0, #1");
        push_line(&mut block, l2.as_str());
        push_line(&mut block, "    cmp x0, #2");
        push_line(&mut block, l3.as_str());
        push_line(&mut block, l4.as_str());
        push_line(&mut block, l5.as_str());
        push_line(&mut block, "    ldr x22, [x19, #16]");
        push_line(&mut block, "    cmp x20, x22");
        push_line(&mut block, l6.as_str());
        push_line(&mut block, "    ldr x23, [x19, #24]");
        push_line(&mut block, "    ldr x0, [x23, x20, lsl #3]");
        push_line(&mut block, "    bl _dec_rc");
        push_line(&mut block, "    mov x0, x21");
        push_line(&mut block, "    bl _inc_rc");
        push_line(&mut block, "    str x21, [x23, x20, lsl #3]");
        push_line(&mut block, l7.as_str());
        push_line(&mut block, l8.as_str());
        self.emit_lines(&block);
        let ghost lists = self.lines();
        assert(lists =~= loads + seq![
            "    cbz x19, "@ + label_at(g.labels + 3),
            "    ldr x0, [x19, #0]"@,
            "    cmp x0, #1"@,
            "    b.eq "@ + label_at(g.labels + 1),
            "    cmp x0, #2"@,
            "    b.eq "@ + label_at(g.labels + 2),
            "    b "@ + label_at(g.labels + 3),
            label_at(g.labels + 1) + ":"@,
            "    ldr x22, [x19, #16]"@,
            "    cmp x20, x22"@,
            "    b.ge "@ + label_at(g.labels + 3),
            "    ldr x23, [x19, #24]"@,
            "    ldr x0, [x23, x20, lsl #3]"@,
            "    bl _dec_rc"@,
            "    mov x0, x21"@,
            "    bl _inc_rc"@,
            "    str x21, [x23, x20, lsl #3]"@,
            "    b "@ + label_at(g.labels),
            label_at(g.labels + 2) + ":"@,
        ]);
        {
            let mut block: Vec<Vec<char>> = Vec::new();
            push_line(&mut block, "    ldr x22, [x19, #16]");
            push_line(&mut block, "    ldr x23, [x19, #24]");
            push_line(&mut block, "    mov x0, x20");
            push_line(&mut block, "    bl _inc_rc");
            push_line(&mut block, "    mov x0, x21");
            push_line(&mut block, "    bl _inc_rc");
            push_line(&mut block, "    add x24, x22, #1");
            push_line(&mut block, "    lsl x0, x24, #4");
            push_line(&mut block, "    mov x25, x0");
            push_line(&mut block, "    mov x0, x23");
            push_line(&mut block, "    mov x1, x25");
            push_line(&mut block, "    bl _realloc");
            push_line(&mut block, "    str x0, [x19, #24]");
            push_line(&mut block, "    mov x23, x0");
            push_line(&mut block, "    lsl x26, x22, #4");
            push_line(&mut block, "    add x27, x23, x26");
            push_line(&mut block, "    str x20, [x27, #0]");
            push_line(&mut block, "    str x21, [x27, #8]");
            push_line(&mut block, "    str x24, [x19, #16]");
            assert(crate::chars::views(block@) =~= seq!["    ldr x22, [x19, #16]"@, "    ldr x23, [x19, #24]"@, "    mov x0, x20"@, "    bl _inc_rc"@, "    mov x0, x21"@, "    bl _inc_rc"@, "    add x24, x22, #1"@, "    lsl x0, x24, #4"@, "    mov x25, x0"@, "    mov x0, x23"@, "    mov x1, x25"@, "    bl _realloc"@, "    str x0, [x19, #24]"@, "    mov x23, x0"@, "    lsl x26, x22, #4"@, "    add x27, x23, x26"@, "    str x20, [x27, #0]"@, "    str x21, [x27, #8]"@, "    str x24, [x19, #16]"@]);
            self.emit_lines(&block);
        }
        let ghost maps = self.lines();
        assert(maps =~= lists + seq!["    ldr x22, [x19, #16]"@, "    ldr x23, [x19, #24]"@, "    mov x0, x20"@, "    bl _inc_rc"@, "    mov x0, x21"@, "    bl _inc_rc"@, "    add x24, x22, #1"@, "    lsl x0, x24, #4"@, "    mov x25, x0"@, "    mov x0, x23"@, "    mov x1, x25"@, "    bl _realloc"@, "    str x0, [x19, #24]"@, "    mov x23, x0"@, "    lsl x26, x22, #4"@, "    add x27, x23, x26"@, "    str x20, [x27, #0]"@, "    str x21, [x27, #8]"@, "    str x24, [x19, #16]"@]);
        let l9 = join(err.as_str(), ":");
        self.emit(l9.as_str());
        self.emit("    // Handle error (quietly for now)");
        let l10 = join(end.as_str(), ":");
        self.emit(l10.as_str());
        proof {
            assert(self.lines() =~= maps + seq![label_at(g.labels + 3) + ":"@, "    // Handle error (quietly for now)"@, label_at(g.labels) + ":"@]);
            assert(self.lines() =~= old(self).lines() + (set_index_lines(g, src@, index@, value@).1));
        }
    }

    /// A keyboard read: the prompt shown, a 256-byte string object filled
    /// from standard input with its newline removed, and stored.
    #[verifier::rlimit(40)]
    fn gen_input(&mut self, instr: &IrInstr) -> (r: Result<(), String>)
        requires
            asm_fits(old(self), instr@),
            instr@ is Input,
        ensures
            asm_done(gen_view(old(self)), instr@, old(self).lines(), final(self), r),
            final(self).frame() == old(self).frame(),
    {
        let ghost g = gen_view(self);
        match instr {
            IrInstr::Input { dest, prompt } => {
                let ghost show = if g.strings.contains_key(prompt@) {
                    seq!["    adrp x0, "@ + g.strings[prompt@] + "@PAGE"@, "    add x0, x0, "@ + g.strings[prompt@] + "@PAGEOFF"@]
                } else {
                    load_lines(g, "x0"@, prompt@)
                };
                match self.string_label(prompt.as_str()) {
                    Some(lab) => {
                        let a = join3("    adrp x0, ", lab.as_str(), "@PAGE");
                        self.emit(a.as_str());
                        let b = join3("    add x0, x0, ", lab.as_str(), "@PAGEOFF");
                        self.emit(b.as_str());
                    },
                    None => {
                        self.load_var("x0", prompt.as_str());
                    },
                }
                let ghost shown = self.lines();
                assert(shown =~= old(self).lines() + show);
                {
                    let mut block: Vec<Vec<char>> = Vec::new();
                    push_line(&mut block, "    bl _print_val");
                    push_line(&mut block, "    mov x0, #288");
                    push_line(&mut block, "    bl _malloc");
                    push_line(&mut block, "    mov x19, x0");
                    push_line(&mut block, "    mov x0, #3");
                    push_line(&mut block, "    str x0, [x19, #0]");
                    push_line(&mut block, "    mov x0, #1");
                    push_line(&mut block, "    str x0, [x19, #8]");
                    push_line(&mut block, "    add x1, x19, #24");
                    push_line(&mut block, "    mov x2, #255");
                    push_line(&mut block, "    mov x0, #0");
                    push_line(&mut block, "    mov x16, #3");
                    push_line(&mut block, "    svc #0x80");
                    push_line(&mut block, "    mov x2, x0");
                    push_line(&mut block, "    add x1, x19, #24");
                    assert(crate::chars::views(block@) =~= seq!["    bl _print_val"@, "    mov x0, #288"@, "    bl _malloc"@, "    mov x19, x0"@, "    mov x0, #3"@, "    str x0, [x19, #0]"@, "    mov x0, #1"@, "    str x0, [x19, #8]"@, "    add x1, x19, #24"@, "    mov x2, #255"@, "    mov x0, #0"@, "    mov x16, #3"@, "    svc #0x80"@, "    mov x2, x0"@, "    add x1, x19, #24"@]);
                    self.emit_lines(&block);
                }
                let ghost mid = self.lines();
                assert(mid =~= shown + seq!["    bl _print_val"@, "    mov x0, #288"@, "    bl _malloc"@, "    mov x19, x0"@, "    mov x0, #3"@, "    str x0, [x19, #0]"@, "    mov x0, #1"@, "    str x0, [x19, #8]"@, "    add x1, x19, #24"@, "    mov x2, #255"@, "    mov x0, #0"@, "    mov x16, #3"@, "    svc #0x80"@, "    mov x2, x0"@, "    add x1, x19, #24"@]);
                let a = self.fresh_label();
                let b = self.fresh_label();
                let c = self.fresh_label();
                let l1 = join("    cbz x2, ", a.as_str());
                let l2 = join("    b.ne ", b.as_str());
                let l3 = join("    b ", c.as_str());
                let l4 = join(b.as_str(), ":");
                let l5 = join(c.as_str(), ":");
                let l6 = join(a.as_str(), ":");
                let mut lines: Vec<Vec<char>> = Vec::new();
                push_line(&mut lines, l1.as_str());
                push_line(&mut lines, "    sub x2, x2, #1");
                push_line(&mut lines, "    add x4, x1, x2");
                push_line(&mut lines, "    ldrb w3, [x4]");
                push_line(&mut lines, "    cmp w3, #10");
                push_line(&mut lines, l2.as_str());
                push_line(&mut lines, "    mov w3, #0");
                push_line(&mut lines, "    strb w3, [x4]");
                push_line(&mut lines, l3.as_str());
                push_line(&mut lines, l4.as_str());
                push_line(&mut lines, "    add x2, x2, #1");
                push_line(&mut lines, "    add x4, x1, x2");
                push_line(&mut lines, "    mov w3, #0");
                push_line(&mut lines, "    strb w3, [x4]");
                push_line(&mut lines, l5.as_str());
                push_line(&mut lines, "    str x2, [x19, #16]");
                push_line(&mut lines, l6.as_str());
                self.emit_lines(&lines);
                let ghost block = self.lines();
                assert(block =~= mid + seq![
                    "    cbz x2, "@ + label_at(g.labels),
                    "    sub x2, x2, #1"@,
                    "    add x4, x1, x2"@,
                    "    ldrb w3, [x4]"@,
                    "    cmp w3, #10"@,
                    "    b.ne "@ + label_at(g.labels + 1),
                    "    mov w3, #0"@,
                    "    strb w3, [x4]"@,
                    "    b "@ + label_at(g.labels + 2),
                    label_at(g.labels + 1) + ":"@,
                    "    add x2, x2, #1"@,
                    "    add x4, x1, x2"@,
                    "    mov w3, #0"@,
                    "    strb w3, [x4]"@,
                    label_at(g.labels + 2) + ":"@,
                    "    str x2, [x19, #16]"@,
                    label_at(g.labels) + ":"@,
                ]);
                self.load_var("x0", dest.as_str());
                self.emit("    bl _dec_rc");
                self.store_var(dest.as_str(), "x19");
                proof {
                    let g1 = GenView { labels: g.labels + 3, ..g };
                    assert(self.lines() =~= block + (load_lines(g1, "x0"@, dest@) + seq!["    bl _dec_rc"@, store_line(g1, dest@, "x19"@)]));
                    assert(self.lines() =~= old(self).lines() + (input_lines(g, dest@, prompt@).1));
                }
                Ok(())
            },
            _ => {
                proof {
                    assert(false);
                }
                Ok(())
            },
        }
    }

    /// A call: at most eight arguments in `x0..x7`, each borrowed for the
    /// call, then the result stored or released.
    fn gen_call(&mut self, instr: &IrInstr) -> (r: Result<(), String>)
        requires
            asm_fits(old(self), instr@),
            instr@ is Call,
        ensures
            asm_done(gen_view(old(self)), instr@, old(self).lines(), final(self), r),
            final(self).frame() == old(self).frame(),
    {
        let ghost g = gen_view(self);
        match instr {
            IrInstr::Call { dest, func, args } => {
                let n = args.len();
                let ghost av = names_view(args@);
                assert(av.len() == n);
                assert(instr@ == (InstrView::Call { dest: opt_view(*dest), func: func@, args: av }));
                if n > 8 {
                    let t = u64_to_text(n as u64);
                    let msg = join3("ARM64 backend supports up to 8 call arguments (got ", t.as_str(), ")");
                    proof {
                        assert(self.lines() =~= old(self).lines() + Seq::<Seq<char>>::empty());
                    }
                    return Err(msg);
                }
                self.emit_call(dest, func, args);
                Ok(())
            },
            _ => {
                proof {
                    assert(false);
                }
                Ok(())
            },
        }
    }

    /// A list literal: a header object and a buffer holding each item,
    /// borrowed.
    fn gen_list(&mut self, instr: &IrInstr) -> (r: Result<(), String>)
        requires
            asm_fits(old(self), instr@),
            instr@ is AllocList,
        ensures
            asm_done(gen_view(old(self)), instr@, old(self).lines(), final(self), r),
            final(self).frame() == old(self).frame(),
    {
        let ghost g = gen_view(self);
        match instr {
            IrInstr::AllocList { dest, items } => {
                let ghost iv = names_view(items@);
                assert(iv.len() == items@.len());
                assert(instr@ == (InstrView::AllocList { dest: dest@, items: iv }));
                let n = items.len();
                self.emit_list_header(n);
                let ghost head = self.lines();
                self.emit_items(items);
                self.store_var(dest.as_str(), "x19");
                proof {
                    assert(self.lines() =~= old(self).lines() + (seq!["    mov x0, #32"@, "    bl _malloc"@, "    mov x19, x0"@, "    mov x0, #1"@, "    str x0, [x19, #0]"@, "    mov x0, #1"@, "    str x0, [x19, #8]"@] + seq![
                        "    mov x0, #"@ + decimal(n as nat),
                        "    str x0, [x19, #16]"@,
                        "    mov x0, #"@ + decimal((n * 8) as nat),
                        "    bl _malloc"@,
                        "    str x0, [x19, #24]"@,
                        "    mov x20, x0"@,
                    ] + item_lines(g, iv, n as int) + seq![store_line(g, dest@, "x19"@)]));
                }
                Ok(())
            },
            _ => {
                proof {
                    assert(false);
                }
                Ok(())
            },
        }
    }

    /// Loads each argument into its register.
    fn emit_arg_loads(&mut self, args: &Vec<String>)
        requires
            args@.len() <= 8,
        ensures
            final(self).lines() == old(self).lines() + arg_loads(gen_view(old(self)), names_view(args@), args@.len() as int),
            gen_view(final(self)) == gen_view(old(self)),
            final(self).frame() == old(self).frame(),
    {
        let ghost g = gen_view(self);
        let ghost av = names_view(args@);
        let n = args.len();
        let mut i: usize = 0;
        assert(self.lines() =~= old(self).lines() + arg_loads(g, av, 0));
        while i < n
            invariant
                0 <= i <= n,
                n == args@.len(),
                n <= 8,
                av == names_view(args@),
                gen_view(self) == g,
                self.frame() == old(self).frame(),
                self.lines() == old(self).lines() + arg_loads(g, av, i as int),
            decreases n - i,
        {
            let reg = join("x", u64_to_text(i as u64).as_str());
            self.load_var(reg.as_str(), args[i].as_str());
            proof {
                assert(self.lines() =~= old(self).lines() + arg_loads(g, av, i + 1));
            }
            i = i + 1;
        }
    }

    /// Borrows the `n` arguments for the call, keeping `x0`.
    fn emit_borrows(&mut self, n: usize)
        requires
            1 <= n <= 8,
        ensures
            final(self).lines() == old(self).lines() + (seq!["    mov x19, x0"@] + borrow_lines(n as int) + seq!["    mov x0, x19"@, "    bl _inc_rc"@]),
            gen_view(final(self)) == gen_view(old(self)),
            final(self).frame() == old(self).frame(),
    {
        self.emit("    mov x19, x0");
        let ghost start = old(self).lines();
        let mut k: usize = 1;
        assert(self.lines() =~= start + seq!["    mov x19, x0"@] + borrow_lines(1));
        while k < n
            invariant
                1 <= k <= n,
                n <= 8,
                gen_view(self) == gen_view(old(self)),
                self.frame() == old(self).frame(),
                self.lines() == start + seq!["    mov x19, x0"@] + borrow_lines(k as int),
            decreases n - k,
        {
            let l = join("    mov x0, x", u64_to_text(k as u64).as_str());
            self.emit(l.as_str());
            self.emit("    bl _inc_rc");
            proof {
                assert(self.lines() =~= start + seq!["    mov x19, x0"@] + borrow_lines(k + 1));
            }
            k = k + 1;
        }
        self.emit("    mov x0, x19");
        self.emit("    bl _inc_rc");
        assert(self.lines() =~= start + (seq!["    mov x19, x0"@] + borrow_lines(n as int) + seq!["    mov x0, x19"@, "    bl _inc_rc"@]));
    }

    /// Stores each item of a list literal into its buffer, borrowed.
    fn emit_items(&mut self, items: &Vec<String>)
        requires
            items@.len() * 8 <= i64::MAX,
        ensures
            final(self).lines() == old(self).lines() + item_lines(gen_view(old(self)), names_view(items@), items@.len() as int),
            gen_view(final(self)) == gen_view(old(self)),
            final(self).frame() == old(self).frame(),
    {
        let ghost g = gen_view(self);
        let ghost iv = names_view(items@);
        let ghost head = self.lines();
        let n = items.len();
        let mut i: usize = 0;
        assert(self.lines() =~= head + item_lines(g, iv, 0));
        while i < n
            invariant
                0 <= i <= n,
                n == items@.len(),
                n * 8 <= i64::MAX,
                iv == names_view(items@),
                gen_view(self) == g,
                self.frame() == old(self).frame(),
                self.lines() == head + item_lines(g, iv, i as int),
            decreases n - i,
        {
            self.load_var("x0", items[i].as_str());
            self.emit("    bl _inc_rc");
            let l = join3("    str x0, [x20, #", u64_to_text((i as u64) * 8).as_str(), "]");
            self.emit(l.as_str());
            proof {
                assert(self.lines() =~= head + item_lines(g, iv, i + 1));
            }
            i = i + 1;
        }
    }

    /// The header object of a list literal of `n` items and its buffer,
    /// whose address is left in `x20`.
    fn emit_list_header(&mut self, n: usize)
        requires
            n * 8 <= i64::MAX,
        ensures
            final(self).lines() == old(self).lines() + (seq!["    mov x0, #32"@, "    bl _malloc"@, "    mov x19, x0"@, "    mov x0, #1"@, "    str x0, [x19, #0]"@, "    mov x0, #1"@, "    str x0, [x19, #8]"@] + seq![
                "    mov x0, #"@ + decimal(n as nat),
                "    str x0, [x19, #16]"@,
                "    mov x0, #"@ + decimal((n * 8) as nat),
                "    bl _malloc"@,
                "    str x0, [x19, #24]"@,
                "    mov x20, x0"@,
            ]),
            gen_view(final(self)) == gen_view(old(self)),
            final(self).frame() == old(self).frame(),
    {
        {
            let mut block: Vec<Vec<char>> = Vec::new();
            push_line(&mut block, "    mov x0, #32");
            push_line(&mut block, "    bl _malloc");
            push_line(&mut block, "    mov x19, x0");
            push_line(&mut block, "    mov x0, #1");
            push_line(&mut block, "    str x0, [x19, #0]");
            push_line(&mut block, "    mov x0, #1");
            push_line(&mut block, "    str x0, [x19, #8]");
            assert(crate::chars::views(block@) =~= seq!["    mov x0, #32"@, "    bl _malloc"@, "    mov x19, x0"@, "    mov x0, #1"@, "    str x0, [x19, #0]"@, "    mov x0, #1"@, "    str x0, [x19, #8]"@]);
            self.emit_lines(&block);
        }
        let c = join("    mov x0, #", u64_to_text(n as u64).as_str());
        let c8 = join("    mov x0, #", u64_to_text((n as u64) * 8).as_str());
        let mut block: Vec<Vec<char>> = Vec::new();
        push_line(&mut block, c.as_str());
        push_line(&mut block, "    str x0, [x19, #16]");
        push_line(&mut block, c8.as_str());
        push_line(&mut block, "    bl _malloc");
        push_line(&mut block, "    str x0, [x19, #24]");
        push_line(&mut block, "    mov x20, x0");
        self.emit_lines(&block);
        assert(self.lines() =~= old(self).lines() + (seq!["    mov x0, #32"@, "    bl _malloc"@, "    mov x19, x0"@, "    mov x0, #1"@, "    str x0, [x19, #0]"@, "    mov x0, #1"@, "    str x0, [x19, #8]"@] + seq![
            "    mov x0, #"@ + decimal(n as nat),
            "    str x0, [x19, #16]"@,
            "    mov x0, #"@ + decimal((n * 8) as nat),
            "    bl _malloc"@,
            "    str x0, [x19, #24]"@,
            "    mov x20, x0"@,
        ]));
    }

    /// The code of a call with at most eight arguments.
    #[verifier::rlimit(30)]
    fn emit_call(&mut self, dest: &Option<String>, func: &String, args: &Vec<String>)
        requires
            args@.len() <= 8,
            (old(self).offsets().len() + 1) * 8 <= i32::MAX,
        ensures
            final(self).lines() == old(self).lines() + call_lines(gen_view(old(self)), opt_view(*dest), func@, names_view(args@)).1,
            gen_view(final(self)) == call_lines(gen_view(old(self)), opt_view(*dest), func@, names_view(args@)).0,
            final(self).frame() == old(self).frame(),
    {
        let ghost g = gen_view(self);
        let ghost av = names_view(args@);
        let n = args.len();
        assert(av.len() == n);
        self.emit_arg_loads(args);
        let ghost loads = self.lines();
        let ghost borrow = if n > 0 {
            seq!["    mov x19, x0"@] + borrow_lines(n as int) + seq!["    mov x0, x19"@, "    bl _inc_rc"@]
        } else {
            Seq::<Seq<char>>::empty()
        };
        if n > 0 {
            self.emit_borrows(n);
        } else {
            assert(self.lines() =~= loads + borrow);
        }
        let ghost borrowed = self.lines();
        assert(borrowed =~= loads + borrow);
        let f = self.sanitize(func.as_str());
        let target = if builtin_call(func.as_str()) {
            join("_", f.as_str())
        } else {
            join("_user_", f.as_str())
        };
        let ghost tgt = if is_builtin(func@) { "_"@ + sanitized(func@) } else { "_user_"@ + sanitized(func@) };
        assert(target@ == tgt);
        let l = join("    bl ", target.as_str());
        self.emit(l.as_str());
        let ghost body = arg_loads(g, av, n as int) + borrow + seq!["    bl "@ + tgt];
        assert(self.lines() =~= old(self).lines() + body);
        match dest {
            Some(d) => {
                self.store_var(d.as_str(), "x0");
                assert(self.lines() =~= old(self).lines() + (body + seq![store_line(g, d@, "x0"@)]));
            },
            None => {
                self.emit("    bl _dec_rc");
                assert(self.lines() =~= old(self).lines() + (body + seq!["    bl _dec_rc"@]));
            },
        }
    }
}

/// The text of `Add` (see `law_operation_text`).
proof fn lemma_text_add(g: GenView, d: Seq<char>, l: Seq<char>, r: Seq<char>)
    ensures
        instr_asm(g, InstrView::Add { dest: d, left: l, right: r }).1 == load_lines(g, "x0"@, l) + load_lines(g, "x1"@, r) + seq!["    add x0, x0, x1"@, store_line(g, d, "x0"@)],
        instr_asm(g, InstrView::Add { dest: d, left: l, right: r }).2 is None,
{
    assert(instr_asm(g, InstrView::Add { dest: d, left: l, right: r }).1 =~= load_lines(g, "x0"@, l) + load_lines(g, "x1"@, r) + seq!["    add x0, x0, x1"@, store_line(g, d, "x0"@)]);
}

/// The text of `Sub` (see `law_operation_text`).
proof fn lemma_text_sub(g: GenView, d: Seq<char>, l: Seq<char>, r: Seq<char>)
    ensures
        instr_asm(g, InstrView::Sub { dest: d, left: l, right: r }).1 == load_lines(g, "x0"@, l) + load_lines(g, "x1"@, r) + seq!["    sub x0, x0, x1"@, store_line(g, d, "x0"@)],
        instr_asm(g, InstrView::Sub { dest: d, left: l, right: r }).2 is None,
{
    assert(instr_asm(g, InstrView::Sub { dest: d, left: l, right: r }).1 =~= load_lines(g, "x0"@, l) + load_lines(g, "x1"@, r) + seq!["    sub x0, x0, x1"@, store_line(g, d, "x0"@)]);
}

/// The text of `Mul` (see `law_operation_text`).
proof fn lemma_text_mul(g: GenView, d: Seq<char>, l: Seq<char>, r: Seq<char>)
    ensures
        instr_asm(g, InstrView::Mul { dest: d, left: l, right: r }).1 == load_lines(g, "x0"@, l) + load_lines(g, "x1"@, r) + seq!["    mul x0, x0, x1"@, store_line(g, d, "x0"@)],
        instr_asm(g, InstrView::Mul { dest: d, left: l, right: r }).2 is None,
{
    assert(instr_asm(g, InstrView::Mul { dest: d, left: l, right: r }).1 =~= load_lines(g, "x0"@, l) + load_lines(g, "x1"@, r) + seq!["    mul x0, x0, x1"@, store_line(g, d, "x0"@)]);
}

/// The text of `Div` (see `law_operation_text`).
proof fn lemma_text_div(g: GenView, d: Seq<char>, l: Seq<char>, r: Seq<char>)
    ensures
        instr_asm(g, InstrView::Div { dest: d, left: l, right: r }).1 == load_lines(g, "x0"@, l) + load_lines(g, "x1"@, r) + seq!["    sdiv x0, x0, x1"@, store_line(g, d, "x0"@)],
        instr_asm(g, InstrView::Div { dest: d, left: l, right: r }).2 is None,
{
    assert(instr_asm(g, InstrView::Div { dest: d, left: l, right: r }).1 =~= load_lines(g, "x0"@, l) + load_lines(g, "x1"@, r) + seq!["    sdiv x0, x0, x1"@, store_line(g, d, "x0"@)]);
}

/// The text of `BitAnd` (see `law_operation_text`).
proof fn lemma_text_bitand(g: GenView, d: Seq<char>, l: Seq<char>, r: Seq<char>)
    ensures
        instr_asm(g, InstrView::BitAnd { dest: d, left: l, right: r }).1 == load_lines(g, "x0"@, l) + load_lines(g, "x1"@, r) + seq!["    and x0, x0, x1"@, store_line(g, d, "x0"@)],
        instr_asm(g, InstrView::BitAnd { dest: d, left: l, right: r }).2 is None,
{
    assert(instr_asm(g, InstrView::BitAnd { dest: d, left: l, right: r }).1 =~= load_lines(g, "x0"@, l) + load_lines(g, "x1"@, r) + seq!["    and x0, x0, x1"@, store_line(g, d, "x0"@)]);
}

/// The text of `BitOr` (see `law_operation_text`).
proof fn lemma_text_bitor(g: GenView, d: Seq<char>, l: Seq<char>, r: Seq<char>)
    ensures
        instr_asm(g, InstrView::BitOr { dest: d, left: l, right: r }).1 == load_lines(g, "x0"@, l) + load_lines(g, "x1"@, r) + seq!["    orr x0, x0, x1"@, store_line(g, d, "x0"@)],
        instr_asm(g, InstrView::BitOr { dest: d, left: l, right: r }).2 is None,
{
    assert(instr_asm(g, InstrView::BitOr { dest: d, left: l, right: r }).1 =~= load_lines(g, "x0"@, l) + load_lines(g, "x1"@, r) + seq!["    orr x0, x0, x1"@, store_line(g, d, "x0"@)]);
}

/// The text of `BitXor` (see `law_operation_text`).
proof fn lemma_text_bitxor(g: GenView, d: Seq<char>, l: Seq<char>, r: Seq<char>)
    ensures
        instr_asm(g, InstrView::BitXor { dest: d, left: l, right: r }).1 == load_lines(g, "x0"@, l) + load_lines(g, "x1"@, r) + seq!["    eor x0, x0, x1"@, store_line(g, d, "x0"@)],
        instr_asm(g, InstrView::BitXor { dest: d, left: l, right: r }).2 is None,
{
    assert(instr_asm(g, InstrView::BitXor { dest: d, left: l, right: r }).1 =~= load_lines(g, "x0"@, l) + load_lines(g, "x1"@, r) + seq!["    eor x0, x0, x1"@, store_line(g, d, "x0"@)]);
}

/// The text of `Shl` (see `law_operation_text`).
proof fn lemma_text_shl(g: GenView, d: Seq<char>, l: Seq<char>, r: Seq<char>)
    ensures
        instr_asm(g, InstrView::Shl { dest: d, left: l, right: r }).1 == load_lines(g, "x0"@, l) + load_lines(g, "x1"@, r) + seq!["    lsl x0, x0, x1"@, store_line(g, d, "x0"@)],
        instr_asm(g, InstrView::Shl { dest: d, left: l, right: r }).2 is None,
{
    assert(instr_asm(g, InstrView::Shl { dest: d, left: l, right: r }).1 =~= load_lines(g, "x0"@, l) + load_lines(g, "x1"@, r) + seq!["    lsl x0, x0, x1"@, store_line(g, d, "x0"@)]);
}

/// The text of `Shr` (see `law_operation_text`).
proof fn lemma_text_shr(g: GenView, d: Seq<char>, l: Seq<char>, r: Seq<char>)
    ensures
        instr_asm(g, InstrView::Shr { dest: d, left: l, right: r }).1 == load_lines(g, "x0"@, l) + load_lines(g, "x1"@, r) + seq!["    lsr x0, x0, x1"@, store_line(g, d, "x0"@)],
        instr_asm(g, InstrView::Shr { dest: d, left: l, right: r }).2 is None,
{
    assert(instr_asm(g, InstrView::Shr { dest: d, left: l, right: r }).1 =~= load_lines(g, "x0"@, l) + load_lines(g, "x1"@, r) + seq!["    lsr x0, x0, x1"@, store_line(g, d, "x0"@)]);
}

/// The text of `Eq` (see `law_operation_text`).
proof fn lemma_text_eq(g: GenView, d: Seq<char>, l: Seq<char>, r: Seq<char>)
    ensures
        instr_asm(g, InstrView::Eq { dest: d, left: l, right: r }).1 == load_lines(g, "x0"@, l) + load_lines(g, "x1"@, r) + seq!["    cmp x0, x1"@, "    cset x0, eq"@, store_line(g, d, "x0"@)],
        instr_asm(g, InstrView::Eq { dest: d, left: l, right: r }).2 is None,
{
    assert(instr_asm(g, InstrView::Eq { dest: d, left: l, right: r }).1 =~= load_lines(g, "x0"@, l) + load_lines(g, "x1"@, r) + seq!["    cmp x0, x1"@, "    cset x0, eq"@, store_line(g, d, "x0"@)]);
}

/// The text of `Ne` (see `law_operation_text`).
proof fn lemma_text_ne(g: GenView, d: Seq<char>, l: Seq<char>, r: Seq<char>)
    ensures
        instr_asm(g, InstrView::Ne { dest: d, left: l, right: r }).1 == load_lines(g, "x0"@, l) + load_lines(g, "x1"@, r) + seq!["    cmp x0, x1"@, "    cset x0, ne"@, store_line(g, d, "x0"@)],
        instr_asm(g, InstrView::Ne { dest: d, left: l, right: r }).2 is None,
{
    assert(instr_asm(g, InstrView::Ne { dest: d, left: l, right: r }).1 =~= load_lines(g, "x0"@, l) + load_lines(g, "x1"@, r) + seq!["    cmp x0, x1"@, "    cset x0, ne"@, store_line(g, d, "x0"@)]);
}

/// The text of `Lt` (see `law_operation_text`).
proof fn lemma_text_lt(g: GenView, d: Seq<char>, l: Seq<char>, r: Seq<char>)
    ensures
        instr_asm(g, InstrView::Lt { dest: d, left: l, right: r }).1 == load_lines(g, "x0"@, l) + load_lines(g, "x1"@, r) + seq!["    cmp x0, x1"@, "    cset x0, lt"@, store_line(g, d, "x0"@)],
        instr_asm(g, InstrView::Lt { dest: d, left: l, right: r }).2 is None,
{
    assert(instr_asm(g, InstrView::Lt { dest: d, left: l, right: r }).1 =~= load_lines(g, "x0"@, l) + load_lines(g, "x1"@, r) + seq!["    cmp x0, x1"@, "    cset x0, lt"@, store_line(g, d, "x0"@)]);
}

/// The text of `Gt` (see `law_operation_text`).
proof fn lemma_text_gt(g: GenView, d: Seq<char>, l: Seq<char>, r: Seq<char>)
    ensures
        instr_asm(g, InstrView::Gt { dest: d, left: l, right: r }).1 == load_lines(g, "x0"@, l) + load_lines(g, "x1"@, r) + seq!["    cmp x0, x1"@, "    cset x0, gt"@, store_line(g, d, "x0"@)],
        instr_asm(g, InstrView::Gt { dest: d, left: l, right: r }).2 is None,
{
    assert(instr_asm(g, InstrView::Gt { dest: d, left: l, right: r }).1 =~= load_lines(g, "x0"@, l) + load_lines(g, "x1"@, r) + seq!["    cmp x0, x1"@, "    cset x0, gt"@, store_line(g, d, "x0"@)]);
}

/// An arithmetic, bit or comparison instruction loads its left operand
/// into `x0` and its right one into `x1`, applies the ARM64 instruction of
/// the same operation to them in that order (`sub x0, x0, x1` computes
/// left minus right; a comparison sets `x0` from the condition of the same
/// name), stores `x0` into the destination, and is never refused.
pub proof fn law_operation_text(g: GenView, d: Seq<char>, l: Seq<char>, r: Seq<char>)
    ensures
        instr_asm(g, InstrView::Add { dest: d, left: l, right: r }).1 == load_lines(g, "x0"@, l) + load_lines(g, "x1"@, r) + seq!["    add x0, x0, x1"@, store_line(g, d, "x0"@)],
        instr_asm(g, InstrView::Add { dest: d, left: l, right: r }).2 is None,
        instr_asm(g, InstrView::Sub { dest: d, left: l, right: r }).1 == load_lines(g, "x0"@, l) + load_lines(g, "x1"@, r) + seq!["    sub x0, x0, x1"@, store_line(g, d, "x0"@)],
        instr_asm(g, InstrView::Sub { dest: d, left: l, right: r }).2 is None,
        instr_asm(g, InstrView::Mul { dest: d, left: l, right: r }).1 == load_lines(g, "x0"@, l) + load_lines(g, "x1"@, r) + seq!["    mul x0, x0, x1"@, store_line(g, d, "x0"@)],
        instr_asm(g, InstrView::Mul { dest: d, left: l, right: r }).2 is None,
        instr_asm(g, InstrView::Div { dest: d, left: l, right: r }).1 == load_lines(g, "x0"@, l) + load_lines(g, "x1"@, r) + seq!["    sdiv x0, x0, x1"@, store_line(g, d, "x0"@)],
        instr_asm(g, InstrView::Div { dest: d, left: l, right: r }).2 is None,
        instr_asm(g, InstrView::BitAnd { dest: d, left: l, right: r }).1 == load_lines(g, "x0"@, l) + load_lines(g, "x1"@, r) + seq!["    and x0, x0, x1"@, store_line(g, d, "x0"@)],
        instr_asm(g, InstrView::BitAnd { dest: d, left: l, right: r }).2 is None,
        instr_asm(g, InstrView::BitOr { dest: d, left: l, right: r }).1 == load_lines(g, "x0"@, l) + load_lines(g, "x1"@, r) + seq!["    orr x0, x0, x1"@, store_line(g, d, "x0"@)],
        instr_asm(g, InstrView::BitOr { dest: d, left: l, right: r }).2 is None,
        instr_asm(g, InstrView::BitXor { dest: d, left: l, right: r }).1 == load_lines(g, "x0"@, l) + load_lines(g, "x1"@, r) + seq!["    eor x0, x0, x1"@, store_line(g, d, "x0"@)],
        instr_asm(g, InstrView::BitXor { dest: d, left: l, right: r }).2 is None,
        instr_asm(g, InstrView::Shl { dest: d, left: l, right: r }).1 == load_lines(g, "x0"@, l) + load_lines(g, "x1"@, r) + seq!["    lsl x0, x0, x1"@, store_line(g, d, "x0"@)],
        instr_asm(g, InstrView::Shl { dest: d, left: l, right: r }).2 is None,
        instr_asm(g, InstrView::Shr { dest: d, left: l, right: r }).1 == load_lines(g, "x0"@, l) + load_lines(g, "x1"@, r) + seq!["    lsr x0, x0, x1"@, store_line(g, d, "x0"@)],
        instr_asm(g, InstrView::Shr { dest: d, left: l, right: r }).2 is None,
        instr_asm(g, InstrView::Eq { dest: d, left: l, right: r }).1 == load_lines(g, "x0"@, l) + load_lines(g, "x1"@, r) + seq!["    cmp x0, x1"@, "    cset x0, eq"@, store_line(g, d, "x0"@)],
        instr_asm(g, InstrView::Eq { dest: d, left: l, right: r }).2 is None,
        instr_asm(g, InstrView::Ne { dest: d, left: l, right: r }).1 == load_lines(g, "x0"@, l) + load_lines(g, "x1"@, r) + seq!["    cmp x0, x1"@, "    cset x0, ne"@, store_line(g, d, "x0"@)],
        instr_asm(g, InstrView::Ne { dest: d, left: l, right: r }).2 is None,
        instr_asm(g, InstrView::Lt { dest: d, left: l, right: r }).1 == load_lines(g, "x0"@, l) + load_lines(g, "x1"@, r) + seq!["    cmp x0, x1"@, "    cset x0, lt"@, store_line(g, d, "x0"@)],
        instr_asm(g, InstrView::Lt { dest: d, left: l, right: r }).2 is None,
        instr_asm(g, InstrView::Gt { dest: d, left: l, right: r }).1 == load_lines(g, "x0"@, l) + load_lines(g, "x1"@, r) + seq!["    cmp x0, x1"@, "    cset x0, gt"@, store_line(g, d, "x0"@)],
        instr_asm(g, InstrView::Gt { dest: d, left: l, right: r }).2 is None,
{
    lemma_text_add(g, d, l, r);
    lemma_text_sub(g, d, l, r);
    lemma_text_mul(g, d, l, r);
    lemma_text_div(g, d, l, r);
    lemma_text_bitand(g, d, l, r);
    lemma_text_bitor(g, d, l, r);
    lemma_text_bitxor(g, d, l, r);
    lemma_text_shl(g, d, l, r);
    lemma_text_shr(g, d, l, r);
    lemma_text_eq(g, d, l, r);
    lemma_text_ne(g, d, l, r);
    lemma_text_lt(g, d, l, r);
    lemma_text_gt(g, d, l, r);
}

} // verus!
