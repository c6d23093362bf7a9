//! The JIT compiler: IR to ARM64 machine code.
//!
//! Every variable gets a location before any code is written: the
//! parameters first (`x0`, `x1`, ...), then the four most mentioned names,
//! then every slot an instruction writes, each new name taking the next
//! register of `x0`..`x7` and then the next 8-byte stack slot. The code is
//! a prologue that zeroes every location but the incoming arguments, the
//! code of each instruction (mostly calls of runtime helpers with the
//! calling registers saved around them), and an epilogue that releases
//! every assigned value but the result. Jumps are patched once all labels
//! are known.
//!
//! What only the running process knows comes in as plain values: the
//! addresses of the runtime helpers and of the compiled functions, the
//! (address, length) of each interned string, and the integer that each
//! number constant truncates to.

use vstd::prelude::*;
use crate::encoder::{
    Reg, spec_add_imm, spec_sub_imm, spec_str_imm, spec_ldr_imm, spec_cmp_imm, encode_add_imm, encode_sub_imm,
    encode_str_imm, encode_ldr_imm, encode_cmp_imm, encode_stp_fp_lr, encode_ldp_fp_lr, encode_ret,
};
use crate::emit::{words_le, mov64_seq, lemma_words_le_append, lemma_words_le_len};
use crate::regalloc::{Location, RegisterMap, ArithmeticEncoder, load_words, store_words, call_words, frame_bytes};
use crate::branching::{BranchKind, LabelManager, PendingBranch, patch_prefix, first_undefined};
use crate::ir::{IrInstr, IrValue, InstrView, ConstView, names_view, opt_view};
use crate::text::{concat, same_text, u64_to_text};
use crate::optimizer::{def_of, uses_of, instr_def, instr_uses};
use crate::name_map::{NameMap, has_name, map_of, insert_entry};

verus! {

/// The addresses of the runtime helpers the compiled code calls.
#[derive(Debug, Clone, Copy)]
pub struct Helpers {
    pub print: u64,
    pub release: u64,
    pub retain: u64,
    pub alloc_string: u64,
    pub alloc_list: u64,
    pub list_push: u64,
    pub alloc_map: u64,
    pub map_set: u64,
    pub map_get: u64,
    pub map_keys: u64,
    pub map_values: u64,
    pub index_get: u64,
    pub index_set: u64,
    pub list_pop: u64,
    pub list_len: u64,
    pub to_str: u64,
    pub to_num: u64,
    pub range: u64,
    pub abs: u64,
    pub min: u64,
    pub max: u64,
    pub sqrt: u64,
    pub pow: u64,
    pub contains: u64,
    pub is_map: u64,
    pub is_list: u64,
    pub is_string: u64,
    pub float_add: u64,
    pub float_sub: u64,
    pub float_mul: u64,
    pub float_div: u64,
    pub add: u64,
    pub sub: u64,
    pub mul: u64,
    pub div: u64,
    pub eq: u64,
    pub ne: u64,
    pub lt: u64,
    pub gt: u64,
    pub and: u64,
    pub or: u64,
    pub not: u64,
    pub is_truthy: u64,
    pub input: u64,
}

/// What the compiler needs from the running process. `strings[k]` is the
/// (address, length) of the interned bytes of the string that instruction
/// `k` names (a string constant or a member name); `ints[k]` is the integer
/// that the number constant of instruction `k` truncates to. Entries of
/// other instructions are not read.
pub struct JitEnv {
    pub helpers: Helpers,
    pub strings: Vec<(u64, u64)>,
    pub ints: Vec<i64>,
    pub functions: NameMap<u64>,
    pub current: Option<String>,
}

/// The fixed facts the code of every instruction depends on.
pub struct JitCtx {
    pub locs: Map<Seq<char>, Location>,
    pub frame: u16,
    pub helpers: Helpers,
    pub strings: Seq<(u64, u64)>,
    pub ints: Seq<i64>,
    pub functions: Map<Seq<char>, u64>,
    pub current: Option<Seq<char>>,
}

/// The compiler's state between instructions: the names assigned so far in
/// first-assignment order, the labels and pending branches, the words
/// written, and whether an explicit return was compiled.
pub struct GenView {
    pub assigned: Seq<Seq<char>>,
    pub labels: Map<Seq<char>, usize>,
    pub pending: Seq<PendingBranch>,
    pub words: Seq<u32>,
    pub returned: bool,
}

/// A tagged integer: shifted left with the low bit set.
pub open spec fn tagged(v: i64) -> u64 {
    ((v as u64) << 1u64) | 1u64
}

/// `ADD x<d>, x<s>, #0`.
pub open spec fn mv(d: u8, s: u8) -> u32 {
    spec_add_imm(Reg::X(d), Reg::X(s), 0)
}

/// Saves `x0`..`x7` below the stack pointer.
pub open spec fn save_words() -> Seq<u32> {
    seq![spec_sub_imm(Reg::SP, Reg::SP, 64)] + Seq::new(8, |r: int| spec_str_imm(Reg::X(r as u8), Reg::SP, (r * 8) as u16))
}

/// Restores `x0`..`x7`.
pub open spec fn restore_words() -> Seq<u32> {
    Seq::new(8, |r: int| spec_ldr_imm(Reg::X(r as u8), Reg::SP, (r * 8) as u16)) + seq![spec_add_imm(Reg::SP, Reg::SP, 64)]
}

/// A call of `h` with one argument; the result in `x9`.
pub open spec fn call1_words(h: u64, a: Location) -> Seq<u32> {
    save_words() + load_words(9, a) + seq![mv(0, 9)] + call_words(h) + seq![mv(9, 0)] + restore_words()
}

/// A call of `h` with two arguments; the result in `x9`.
pub open spec fn call2_words(h: u64, a: Location, b: Location) -> Seq<u32> {
    save_words() + load_words(9, a) + load_words(10, b) + seq![mv(0, 9), mv(1, 10)] + call_words(h) + seq![mv(9, 0)]
        + restore_words()
}

/// A call of `h` with three arguments.
pub open spec fn call3_words(h: u64, a: Location, b: Location, c: Location) -> Seq<u32> {
    save_words() + load_words(9, a) + load_words(10, b) + load_words(11, c) + seq![mv(0, 9), mv(1, 10), mv(2, 11)]
        + call_words(h) + restore_words()
}

/// A call of `h` with the value at `a` in `x0`, nothing kept.
pub open spec fn release_words(h: u64, a: Location) -> Seq<u32> {
    save_words() + load_words(0, a) + call_words(h) + restore_words()
}

/// A call of `h` with the value at `a` passed through `x9`, nothing kept.
pub open spec fn print_words(h: u64, a: Location) -> Seq<u32> {
    save_words() + load_words(9, a) + seq![mv(0, 9)] + call_words(h) + restore_words()
}

/// A string object made from interned bytes, left in `x<into>`.
pub open spec fn string_words(h: u64, bytes: (u64, u64), into: u8) -> Seq<u32> {
    save_words() + mov64_seq(Reg::X(0), bytes.0) + mov64_seq(Reg::X(1), bytes.1) + call_words(h) + seq![mv(into, 0)]
        + restore_words()
}

/// The condition test of a conditional jump: the truth of the value at `a`
/// compared with the tagged zero.
pub open spec fn truth_words(h: u64, a: Location) -> Seq<u32> {
    save_words() + load_words(9, a) + seq![mv(0, 9)] + call_words(h) + seq![mv(9, 0)] + restore_words() + seq![
        spec_cmp_imm(Reg::X(9), 1),
    ]
}

/// The frame teardown and return.
pub open spec fn epilogue_words(frame: u16) -> Seq<u32> {
    (if frame != 0 { seq![spec_add_imm(Reg::SP, Reg::SP, frame)] } else { Seq::<u32>::empty() }) + seq![
        0xA8C17BFDu32,
        0xD65F03C0u32,
    ]
}

/// The error for a name with no location.
pub open spec fn undefined(v: Seq<char>) -> Seq<char> {
    "Undefined var: "@ + v
}

/// `g` with `ws` written.
pub open spec fn emit(g: GenView, ws: Seq<u32>) -> GenView {
    GenView { words: g.words + ws, ..g }
}

/// `g` with `d` recorded as assigned.
pub open spec fn assign(g: GenView, d: Seq<char>) -> GenView {
    if g.assigned.contains(d) { g } else { GenView { assigned: g.assigned.push(d), ..g } }
}

/// The release of the old value of `d` when it was assigned before.
pub open spec fn release_old(c: JitCtx, g: GenView, d: Seq<char>) -> Result<Seq<u32>, Seq<char>> {
    if g.assigned.contains(d) {
        if c.locs.contains_key(d) {
            Ok(release_words(c.helpers.release, c.locs[d]))
        } else {
            Err(undefined(d))
        }
    } else {
        Ok(Seq::empty())
    }
}

/// An instruction that writes `d`: the release of its old value, then
/// `body`, then `d` is assigned.
pub open spec fn defining(c: JitCtx, g: GenView, d: Seq<char>, body: Result<Seq<u32>, Seq<char>>) -> Result<
    GenView,
    Seq<char>,
> {
    match release_old(c, g, d) {
        Err(e) => Err(e),
        Ok(r) => match body {
            Err(e) => Err(e),
            Ok(b) => Ok(assign(emit(g, r + b), d)),
        },
    }
}

/// The result of a call, in `x9`, stored in `dest` (after `pre`), if any.
pub open spec fn call_result(c: JitCtx, g: GenView, dest: Option<Seq<char>>, pre: Seq<u32>) -> Result<
    GenView,
    Seq<char>,
> {
    match dest {
        None => Ok(g),
        Some(d) => defining(c, g, d, Ok(pre + store_words(9, c.locs[d]))),
    }
}

/// A helper called with the two operands `l` and `r`, its result in `d`.
pub open spec fn binary(c: JitCtx, g: GenView, d: Seq<char>, h: u64, l: Seq<char>, r: Seq<char>) -> Result<
    GenView,
    Seq<char>,
> {
    defining(
        c,
        g,
        d,
        if !c.locs.contains_key(l) {
            Err(undefined(l))
        } else if !c.locs.contains_key(r) {
            Err(undefined(r))
        } else {
            Ok(call2_words(h, c.locs[l], c.locs[r]) + store_words(9, c.locs[d]))
        },
    )
}

/// A helper called with the operand `s`, its result in `d`.
pub open spec fn unary(c: JitCtx, g: GenView, d: Seq<char>, h: u64, s: Seq<char>) -> Result<GenView, Seq<char>> {
    defining(
        c,
        g,
        d,
        if !c.locs.contains_key(s) {
            Err(undefined(s))
        } else {
            Ok(call1_words(h, c.locs[s]) + store_words(9, c.locs[d]))
        },
    )
}

/// The first of `vs` with no location, if any.
pub open spec fn first_missing(locs: Map<Seq<char>, Location>, vs: Seq<Seq<char>>) -> Option<Seq<char>>
    decreases vs.len(),
{
    if vs.len() == 0 {
        None
    } else {
        match first_missing(locs, vs.drop_last()) {
            Some(v) => Some(v),
            None => if locs.contains_key(vs.last()) { None } else { Some(vs.last()) },
        }
    }
}

/// The pushes of the items onto the list at `list`.
pub open spec fn push_words(h: u64, list: Location, locs: Map<Seq<char>, Location>, items: Seq<Seq<char>>) -> Seq<u32>
    decreases items.len(),
{
    if items.len() == 0 {
        Seq::empty()
    } else {
        push_words(h, list, locs, items.drop_last()) + call2_words(h, list, locs[items.last()])
    }
}

/// The arguments loaded into `x0`, `x1`, ... in order.
pub open spec fn arg_words(locs: Map<Seq<char>, Location>, args: Seq<Seq<char>>) -> Seq<u32>
    decreases args.len(),
{
    if args.len() == 0 {
        Seq::empty()
    } else {
        arg_words(locs, args.drop_last()) + load_words((args.len() - 1) as u8, locs[args.last()])
    }
}

/// The helper of a one-argument built-in, if `f` is one.
pub open spec fn builtin1(h: Helpers, f: Seq<char>) -> Option<u64> {
    if f == "len"@ {
        Some(h.list_len)
    } else if f == "str"@ {
        Some(h.to_str)
    } else if f == "num"@ {
        Some(h.to_num)
    } else if f == "keys"@ {
        Some(h.map_keys)
    } else if f == "values"@ {
        Some(h.map_values)
    } else if f == "pop"@ {
        Some(h.list_pop)
    } else if f == "abs"@ {
        Some(h.abs)
    } else if f == "sqrt"@ {
        Some(h.sqrt)
    } else if f == "is_map"@ {
        Some(h.is_map)
    } else if f == "is_list"@ {
        Some(h.is_list)
    } else if f == "is_string"@ {
        Some(h.is_string)
    } else {
        None
    }
}

/// The helper of a two-argument built-in with a result, if `f` is one.
pub open spec fn builtin2(h: Helpers, f: Seq<char>) -> Option<u64> {
    if f == "range"@ {
        Some(h.range)
    } else if f == "min"@ {
        Some(h.min)
    } else if f == "max"@ {
        Some(h.max)
    } else if f == "pow"@ {
        Some(h.pow)
    } else if f == "contains"@ {
        Some(h.contains)
    } else {
        None
    }
}

/// A call: `print`/`println` of one value, a built-in, `push`, or a call
/// of a compiled function (a recursive call branches to the function's
/// entry).
pub open spec fn call_step(c: JitCtx, g: GenView, dest: Option<Seq<char>>, f: Seq<char>, args: Seq<Seq<char>>) -> Result<
    GenView,
    Seq<char>,
> {
    let h = c.helpers;
    if f == "print"@ || f == "println"@ {
        if args.len() != 1 {
            Err(f + " expects 1 argument"@)
        } else if !c.locs.contains_key(args[0]) {
            Err(undefined(args[0]))
        } else {
            call_result(c, emit(g, print_words(h.print, c.locs[args[0]])), dest, mov64_seq(Reg::X(9), tagged(0)))
        }
    } else if args.len() == 1 && builtin1(h, f) is Some {
        if !c.locs.contains_key(args[0]) {
            Err(undefined(args[0]))
        } else {
            call_result(c, emit(g, call1_words(builtin1(h, f).unwrap(), c.locs[args[0]])), dest, Seq::empty())
        }
    } else if args.len() == 2 && (builtin2(h, f) is Some || f == "push"@) {
        if !c.locs.contains_key(args[0]) {
            Err(undefined(args[0]))
        } else if !c.locs.contains_key(args[1]) {
            Err(undefined(args[1]))
        } else if f == "push"@ {
            call_result(
                c,
                emit(g, call2_words(h.list_push, c.locs[args[0]], c.locs[args[1]])),
                dest,
                call1_words(h.list_len, c.locs[args[0]]),
            )
        } else {
            call_result(
                c,
                emit(g, call2_words(builtin2(h, f).unwrap(), c.locs[args[0]], c.locs[args[1]])),
                dest,
                Seq::empty(),
            )
        }
    } else if args.len() > 8 {
        Err("More than 8 call args not supported yet"@)
    } else {
        match first_missing(c.locs, args) {
            Some(v) => Err(undefined(v)),
            None => {
                let g1 = emit(g, save_words() + arg_words(c.locs, args));
                if c.current == Some(f) {
                    let g2 = GenView {
                        pending: g1.pending.push(((4 * g1.words.len()) as usize, "__fn_entry"@, BranchKind::BL)),
                        words: g1.words.push(0),
                        ..g1
                    };
                    call_result(c, emit(g2, seq![mv(9, 0)] + restore_words()), dest, Seq::empty())
                } else if c.functions.contains_key(f) {
                    call_result(
                        c,
                        emit(g1, call_words(c.functions[f]) + seq![mv(9, 0)] + restore_words()),
                        dest,
                        Seq::empty(),
                    )
                } else {
                    Err("Unknown function: "@ + f)
                }
            },
        }
    }
}

/// The releases of the assigned values other than `skip`.
pub open spec fn releases(c: JitCtx, assigned: Seq<Seq<char>>, skip: Option<Seq<char>>) -> Seq<u32>
    decreases assigned.len(),
{
    if assigned.len() == 0 {
        Seq::empty()
    } else {
        let v = assigned.last();
        releases(c, assigned.drop_last(), skip) + if skip == Some(v) || !c.locs.contains_key(v) {
            Seq::empty()
        } else {
            release_words(c.helpers.release, c.locs[v])
        }
    }
}


/// A constant loaded into `d`.
pub open spec fn load_const_step(c: JitCtx, g: GenView, d: Seq<char>, value: ConstView, k: int) -> Result<GenView, Seq<char>> {
    defining(
        c,
        g,
        d,
        Ok(
            match value {
                ConstView::Number(_) => mov64_seq(Reg::X(9), tagged(c.ints[k])),
                ConstView::Bool(b) => mov64_seq(Reg::X(9), tagged(if b { 1 } else { 0 })),
                ConstView::String(_) => string_words(c.helpers.alloc_string, c.strings[k], 9),
            } + store_words(9, c.locs[d]),
        ),
    )
}

/// The value of `src`, retained, copied into `d`.
pub open spec fn move_step(c: JitCtx, g: GenView, d: Seq<char>, src: Seq<char>) -> Result<GenView, Seq<char>> {
    defining(
        c,
        g,
        d,
        if !c.locs.contains_key(src) {
            Err(undefined(src))
        } else {
            Ok(release_words(c.helpers.retain, c.locs[src]) + load_words(9, c.locs[src]) + store_words(9, c.locs[d]))
        },
    )
}

/// The task value of `task` copied into `d`.
pub open spec fn await_step(c: JitCtx, g: GenView, d: Seq<char>, task: Seq<char>) -> Result<GenView, Seq<char>> {
    defining(
        c,
        g,
        d,
        if !c.locs.contains_key(task) {
            Err(undefined(task))
        } else {
            Ok(load_words(9, c.locs[task]) + store_words(9, c.locs[d]))
        },
    )
}

/// A new map in `d`.
pub open spec fn alloc_map_step(c: JitCtx, g: GenView, d: Seq<char>) -> Result<GenView, Seq<char>> {
    defining(
        c,
        g,
        d,
        Ok(save_words() + call_words(c.helpers.alloc_map) + seq![mv(9, 0)] + restore_words() + store_words(9, c.locs[d])),
    )
}

/// The words that make a new list of `n` items and store it at `dst`.
pub open spec fn new_list_words(h: u64, n: u64, dst: Location) -> Seq<u32> {
    save_words() + mov64_seq(Reg::X(0), n) + call_words(h) + seq![mv(9, 0)] + restore_words() + store_words(9, dst)
}

/// A new list of `items` in `d`.
pub open spec fn alloc_list_step(c: JitCtx, g: GenView, d: Seq<char>, items: Seq<Seq<char>>) -> Result<GenView, Seq<char>> {
    defining(
        c,
        g,
        d,
        match first_missing(c.locs, items) {
            Some(v) => Err(undefined(v)),
            None => Ok(
                new_list_words(c.helpers.alloc_list, items.len() as u64, c.locs[d]) + push_words(
                    c.helpers.list_push,
                    c.locs[d],
                    c.locs,
                    items,
                ),
            ),
        },
    )
}


/// A helper called with three operands, nothing kept.
pub open spec fn store3_step(c: JitCtx, g: GenView, h: u64, a: Seq<char>, b: Seq<char>, v: Seq<char>) -> Result<GenView, Seq<char>> {
    if !c.locs.contains_key(a) {
        Err(undefined(a))
    } else if !c.locs.contains_key(b) {
        Err(undefined(b))
    } else if !c.locs.contains_key(v) {
        Err(undefined(v))
    } else {
        Ok(emit(g, call3_words(h, c.locs[a], c.locs[b], c.locs[v])))
    }
}

/// The words that set the member named by interned string `k` of `obj` to `value`.
pub open spec fn set_member_words(h: Helpers, bytes: (u64, u64), obj: Location, value: Location) -> Seq<u32> {
    string_words(h.alloc_string, bytes, 10) + save_words() + load_words(9, obj) + load_words(11, value) + seq![
        mv(0, 9),
        mv(1, 10),
        mv(2, 11),
    ] + call_words(h.map_set) + restore_words()
}

/// A member of `obj` set to `value`.
pub open spec fn set_member_step(c: JitCtx, g: GenView, obj: Seq<char>, value: Seq<char>, k: int) -> Result<GenView, Seq<char>> {
    if !c.locs.contains_key(obj) {
        Err(undefined(obj))
    } else if !c.locs.contains_key(value) {
        Err(undefined(value))
    } else {
        Ok(emit(g, set_member_words(c.helpers, c.strings[k], c.locs[obj], c.locs[value])))
    }
}

/// The words that read the member named by interned string `k` of `obj` into `x9`.
pub open spec fn get_member_words(h: Helpers, bytes: (u64, u64), obj: Location) -> Seq<u32> {
    string_words(h.alloc_string, bytes, 10) + save_words() + load_words(9, obj) + seq![mv(0, 9), mv(1, 10)]
        + call_words(h.map_get) + seq![mv(9, 0)] + restore_words()
}

/// A member of `obj` read into `d`.
pub open spec fn get_member_step(c: JitCtx, g: GenView, d: Seq<char>, obj: Seq<char>, k: int) -> Result<GenView, Seq<char>> {
    defining(
        c,
        g,
        d,
        if !c.locs.contains_key(obj) {
            Err(undefined(obj))
        } else {
            Ok(get_member_words(c.helpers, c.strings[k], c.locs[obj]) + store_words(9, c.locs[d]))
        },
    )
}

/// The value of `src` printed.
pub open spec fn print_step(c: JitCtx, g: GenView, src: Seq<char>) -> Result<GenView, Seq<char>> {
    if !c.locs.contains_key(src) {
        Err(undefined(src))
    } else {
        Ok(emit(g, print_words(c.helpers.print, c.locs[src])))
    }
}

/// A spawned task: its value stays where it is.
pub open spec fn spawn_step(c: JitCtx, g: GenView, task: Seq<char>) -> Result<GenView, Seq<char>> {
    if !c.locs.contains_key(task) {
        Err(undefined(task))
    } else {
        Ok(emit(g, load_words(9, c.locs[task]) + store_words(9, c.locs[task])))
    }
}

/// A label at the current offset.
pub open spec fn label_step(g: GenView, name: Seq<char>) -> GenView {
    GenView { labels: g.labels.insert(name, (4 * g.words.len()) as usize), ..g }
}

/// A branch to `label` recorded at the current offset, with a word to patch.
pub open spec fn branch_step(g: GenView, label: Seq<char>, kind: BranchKind) -> GenView {
    GenView { pending: g.pending.push(((4 * g.words.len()) as usize, label, kind)), words: g.words.push(0), ..g }
}

/// A jump to `label` when `cond` is false.
pub open spec fn jump_if_step(c: JitCtx, g: GenView, cond: Seq<char>, label: Seq<char>) -> Result<GenView, Seq<char>> {
    if !c.locs.contains_key(cond) {
        Err(undefined(cond))
    } else {
        Ok(branch_step(emit(g, truth_words(c.helpers.is_truthy, c.locs[cond])), label, BranchKind::BNe))
    }
}

/// A return of `value` (the tagged zero when there is none).
pub open spec fn return_step(c: JitCtx, g: GenView, value: Option<Seq<char>>) -> Result<GenView, Seq<char>> {
    match value {
        Some(v) => if !c.locs.contains_key(v) {
            Err(undefined(v))
        } else {
            Ok(
                GenView {
                    returned: true,
                    ..emit(g, load_words(0, c.locs[v]) + releases(c, g.assigned, Some(v)) + epilogue_words(c.frame))
                },
            )
        },
        None => Ok(
            GenView {
                returned: true,
                ..emit(g, mov64_seq(Reg::X(0), tagged(0)) + releases(c, g.assigned, None) + epilogue_words(c.frame))
            },
        ),
    }
}

/// The code of instruction `k`, `i`, from state `g`, or its error.
#[verifier::opaque]
pub open spec fn instr_step(c: JitCtx, g: GenView, i: InstrView, k: int) -> Result<GenView, Seq<char>> {
    let h = c.helpers;
    match i {
        InstrView::LoadConst { dest, value } => load_const_step(c, g, dest, value, k),
        InstrView::Move { dest, src } => move_step(c, g, dest, src),
        InstrView::Add { dest, left, right } => binary(c, g, dest, h.add, left, right),
        InstrView::Sub { dest, left, right } => binary(c, g, dest, h.sub, left, right),
        InstrView::Mul { dest, left, right } => binary(c, g, dest, h.mul, left, right),
        InstrView::Div { dest, left, right } => binary(c, g, dest, h.div, left, right),
        InstrView::Eq { dest, left, right } => binary(c, g, dest, h.eq, left, right),
        InstrView::Ne { dest, left, right } => binary(c, g, dest, h.ne, left, right),
        InstrView::Lt { dest, left, right } => binary(c, g, dest, h.lt, left, right),
        InstrView::Gt { dest, left, right } => binary(c, g, dest, h.gt, left, right),
        InstrView::LogicAnd { dest, left, right } => binary(c, g, dest, h.and, left, right),
        InstrView::LogicOr { dest, left, right } => binary(c, g, dest, h.or, left, right),
        InstrView::FAdd { dest, left, right } => binary(c, g, dest, h.float_add, left, right),
        InstrView::FSub { dest, left, right } => binary(c, g, dest, h.float_sub, left, right),
        InstrView::FMul { dest, left, right } => binary(c, g, dest, h.float_mul, left, right),
        InstrView::FDiv { dest, left, right } => binary(c, g, dest, h.float_div, left, right),
        InstrView::GetIndex { dest, src, index } => binary(c, g, dest, h.index_get, src, index),
        InstrView::GetMap { dest, map, key } => binary(c, g, dest, h.map_get, map, key),
        InstrView::LogicNot { dest, src } => unary(c, g, dest, h.not, src),
        InstrView::Input { dest, prompt } => unary(c, g, dest, h.input, prompt),
        InstrView::AllocList { dest, items } => alloc_list_step(c, g, dest, items),
        InstrView::AllocMap { dest } | InstrView::AllocStruct { dest, .. } => alloc_map_step(c, g, dest),
        InstrView::SetMap { map, key, value } => store3_step(c, g, h.map_set, map, key, value),
        InstrView::SetIndex { src, index, value } => store3_step(c, g, h.index_set, src, index, value),
        InstrView::SetMember { obj, value, .. } => set_member_step(c, g, obj, value, k),
        InstrView::GetMember { dest, obj, .. } => get_member_step(c, g, dest, obj, k),
        InstrView::Print { src } | InstrView::PrintNum { src } => print_step(c, g, src),
        InstrView::Call { dest, func, args } => call_step(c, g, dest, func, args),
        InstrView::Spawn { task } => spawn_step(c, g, task),
        InstrView::Await { dest, task } => await_step(c, g, dest, task),
        InstrView::Label { name } => Ok(label_step(g, name)),
        InstrView::Jump { label } => Ok(branch_step(g, label, BranchKind::B)),
        InstrView::JumpIf { cond, label } => jump_if_step(c, g, cond, label),
        InstrView::Return { value } => return_step(c, g, value),
        _ => Ok(g),
    }
}

/// The code of the first `n` instructions from state `g`.
pub open spec fn run(c: JitCtx, g: GenView, is: Seq<InstrView>, n: int) -> Result<GenView, Seq<char>>
    decreases n,
{
    if n <= 0 {
        Ok(g)
    } else {
        match run(c, g, is, n - 1) {
            Err(e) => Err(e),
            Ok(g1) => instr_step(c, g1, is[n - 1], n - 1),
        }
    }
}

/// The slot an instruction's result is returned from when the code falls
/// off its end.
pub open spec fn result_of(i: InstrView) -> Option<Seq<char>> {
    match i {
        InstrView::AllocStruct { .. } | InstrView::Input { .. } => None,
        _ => def_of(i),
    }
}

/// The result slot of the last instruction of `is[..n]` that has one.
pub open spec fn last_result(is: Seq<InstrView>, n: int) -> Option<Seq<char>>
    decreases n,
{
    if n <= 0 {
        None
    } else {
        match result_of(is[n - 1]) {
            Some(v) => Some(v),
            None => last_result(is, n - 1),
        }
    }
}

/// The words after the last instruction: nothing after an explicit return,
/// else the last result (or the tagged zero) into `x0`, the releases and
/// the epilogue.
pub open spec fn final_words(c: JitCtx, g: GenView, is: Seq<InstrView>) -> Seq<u32> {
    if g.returned {
        g.words
    } else {
        let last = last_result(is, is.len() as int);
        g.words + match last {
            Some(v) => if c.locs.contains_key(v) { load_words(0, c.locs[v]) } else { mov64_seq(Reg::X(0), tagged(0)) },
            None => mov64_seq(Reg::X(0), tagged(0)),
        } + releases(c, g.assigned, last) + epilogue_words(c.frame)
    }
}

/// `c + 1`, staying at `usize::MAX`.
pub open spec fn bump(c: usize) -> usize {
    if c < usize::MAX { (c + 1) as usize } else { c }
}

/// The count of `v` in `counts`, 0 when absent.
pub open spec fn count_in(counts: Seq<(Seq<char>, usize)>, v: Seq<char>) -> usize {
    if has_name(counts, v) { map_of(counts)[v] } else { 0 }
}

/// `counts` with each of `vs` counted once more, new names appended.
pub open spec fn tally(counts: Seq<(Seq<char>, usize)>, vs: Seq<Seq<char>>) -> Seq<(Seq<char>, usize)>
    decreases vs.len(),
{
    if vs.len() == 0 {
        counts
    } else {
        let c = tally(counts, vs.drop_last());
        insert_entry(c, vs.last(), bump(count_in(c, vs.last())))
    }
}

/// The names an instruction mentions: the slot it writes, then the slots
/// it reads.
pub open spec fn mentions(i: InstrView) -> Seq<Seq<char>> {
    match def_of(i) {
        Some(d) => seq![d] + uses_of(i),
        None => uses_of(i),
    }
}

/// How often each name is mentioned in `is[..n]`, in order of first mention.
pub open spec fn mention_counts(is: Seq<InstrView>, n: int) -> Seq<(Seq<char>, usize)>
    decreases n,
{
    if n <= 0 {
        Seq::empty()
    } else {
        tally(mention_counts(is, n - 1), mentions(is[n - 1]))
    }
}

/// The index, among the first `n` entries of `counts`, of the most
/// mentioned name not in `picked` (the earliest on a tie).
pub open spec fn best(counts: Seq<(Seq<char>, usize)>, picked: Seq<Seq<char>>, n: int) -> Option<int>
    decreases n,
{
    if n <= 0 {
        None
    } else {
        let b = best(counts, picked, n - 1);
        if picked.contains(counts[n - 1].0) {
            b
        } else {
            match b {
                None => Some(n - 1),
                Some(j) => if counts[n - 1].1 > counts[j].1 { Some(n - 1) } else { Some(j) },
            }
        }
    }
}

/// Up to `k` more names picked by decreasing count, earliest first on ties.
pub open spec fn pick(counts: Seq<(Seq<char>, usize)>, picked: Seq<Seq<char>>, k: nat) -> Seq<Seq<char>>
    decreases k,
{
    if k == 0 {
        picked
    } else {
        match best(counts, picked, counts.len() as int) {
            None => picked,
            Some(j) => pick(counts, picked.push(counts[j].0), (k - 1) as nat),
        }
    }
}

/// The four most mentioned names of `is`.
pub open spec fn hot_names(is: Seq<InstrView>) -> Seq<Seq<char>> {
    pick(mention_counts(is, is.len() as int), Seq::empty(), 4)
}

/// The slot an instruction writes that gets a location before compiling.
pub open spec fn slot_of(i: InstrView) -> Option<Seq<char>> {
    match i {
        InstrView::BitAnd { .. } | InstrView::BitOr { .. } | InstrView::BitXor { .. } | InstrView::BitNot { .. }
        | InstrView::Shl { .. } | InstrView::Shr { .. } => None,
        _ => def_of(i),
    }
}

/// `order` with `v` appended unless it is there.
pub open spec fn add_name(order: Seq<Seq<char>>, v: Seq<char>) -> Seq<Seq<char>> {
    if order.contains(v) { order } else { order.push(v) }
}

/// `order` with each of `vs` added in turn.
pub open spec fn add_names(order: Seq<Seq<char>>, vs: Seq<Seq<char>>) -> Seq<Seq<char>>
    decreases vs.len(),
{
    if vs.len() == 0 { order } else { add_name(add_names(order, vs.drop_last()), vs.last()) }
}

/// `order` with the slots of `is[..n]` added in turn.
pub open spec fn add_slots(order: Seq<Seq<char>>, is: Seq<InstrView>, n: int) -> Seq<Seq<char>>
    decreases n,
{
    if n <= 0 {
        order
    } else {
        let o = add_slots(order, is, n - 1);
        match slot_of(is[n - 1]) {
            Some(d) => add_name(o, d),
            None => o,
        }
    }
}

/// The names that get locations, in the order they get them.
pub open spec fn var_order(params: Seq<Seq<char>>, is: Seq<InstrView>) -> Seq<Seq<char>> {
    add_slots(add_names(add_names(Seq::empty(), params), hot_names(is)), is, is.len() as int)
}

/// The location of the `k`-th name: `x<k>` for the first eight, then the
/// stack slots `-16`, `-24`, ...
pub open spec fn loc_for(k: int) -> Location {
    if k < 8 { Location::Register(k as u8) } else { Location::Stack((-16 - 8 * (k - 8)) as i32) }
}

/// The locations of the names of `order`.
pub open spec fn locs_of(order: Seq<Seq<char>>) -> Map<Seq<char>, Location>
    decreases order.len(),
{
    if order.len() == 0 {
        Map::empty()
    } else {
        locs_of(order.drop_last()).insert(order.last(), loc_for(order.len() - 1))
    }
}

/// The next stack slot once `n` names have locations.
pub open spec fn slot_after(n: int) -> int {
    -16 - 8 * (if n > 8 { n - 8 } else { 0 })
}

/// The zeroing of the locations of the first `n` names, except registers
/// that hold incoming arguments.
pub open spec fn zeroing(n: int, preserve: usize) -> Seq<u32>
    decreases n,
{
    if n <= 0 {
        Seq::empty()
    } else {
        zeroing(n - 1, preserve) + match loc_for(n - 1) {
            Location::Register(r) => if r as int >= preserve { store_words(9, loc_for(n - 1)) } else { Seq::empty() },
            Location::Stack(_) => store_words(9, loc_for(n - 1)),
        }
    }
}

/// The prologue: frame record, frame pointer, stack frame, zeroed locations.
pub open spec fn prologue_words(n: int, preserve: usize, frame: u16) -> Seq<u32> {
    seq![0xA9BF7BFDu32, spec_add_imm(Reg::X(29), Reg::SP, 0)] + (if frame != 0 {
        seq![spec_sub_imm(Reg::SP, Reg::SP, frame)]
    } else {
        Seq::<u32>::empty()
    }) + mov64_seq(Reg::X(9), 0) + zeroing(n, preserve)
}

/// The context of compiling `is` with the parameters `params`.
pub open spec fn jit_ctx(params: Seq<Seq<char>>, is: Seq<InstrView>, env: &JitEnv) -> JitCtx {
    let order = var_order(params, is);
    JitCtx {
        locs: locs_of(order),
        frame: frame_bytes(slot_after(order.len() as int)) as u16,
        helpers: env.helpers,
        strings: env.strings@,
        ints: env.ints@,
        functions: env.functions@,
        current: match env.current {
            Some(s) => Some(s@),
            None => None,
        },
    }
}

/// The state after the prologue.
pub open spec fn start_state(params: Seq<Seq<char>>, is: Seq<InstrView>, preserve: usize, env: &JitEnv) -> GenView {
    let c = jit_ctx(params, is, env);
    GenView {
        assigned: Seq::empty(),
        labels: Map::empty().insert("__fn_entry"@, 0usize),
        pending: Seq::empty(),
        words: prologue_words(var_order(params, is).len() as int, preserve, c.frame),
        returned: false,
    }
}


/// The index of the first of `ps[..n]` equal to `v`, if any.
pub open spec fn index_in(ps: Seq<Seq<char>>, v: Seq<char>, n: int) -> Option<int>
    decreases n,
{
    if n <= 0 {
        None
    } else {
        match index_in(ps, v, n - 1) {
            Some(j) => Some(j),
            None => if ps[n - 1] == v { Some(n - 1) } else { None },
        }
    }
}

/// The error of the parameter list: a repeated parameter (which finds the
/// register of its first occurrence taken), or more than eight parameters,
/// whichever comes first.
pub open spec fn param_error(ps: Seq<Seq<char>>, n: int) -> Option<Seq<char>>
    decreases n,
{
    if n <= 0 {
        None
    } else {
        match param_error(ps, n - 1) {
            Some(e) => Some(e),
            None => if n - 1 >= 8 {
                Some("More than 8 parameters not supported yet"@)
            } else {
                match index_in(ps, ps[n - 1], n - 1) {
                    Some(j) => Some("Parameter "@ + ps[n - 1] + " allocated to wrong register "@ + crate::text::decimal(j as nat)),
                    None => None,
                }
            },
        }
    }
}

/// The machine code of `is` with the parameters `params`, or the error that
/// stops compiling: a repeated parameter or too many parameters, a name with no location, a call
/// of an unknown function or with too many arguments, or an undefined
/// label.
pub open spec fn jit_code(params: Seq<Seq<char>>, is: Seq<InstrView>, preserve: usize, env: &JitEnv) -> Result<
    Seq<u8>,
    Seq<char>,
> {
    if param_error(params, params.len() as int) is Some {
        Err(param_error(params, params.len() as int).unwrap())
    } else {
        let c = jit_ctx(params, is, env);
        match run(c, start_state(params, is, preserve, env), is, is.len() as int) {
            Err(e) => Err(e),
            Ok(g) => {
                let n = first_undefined(g.labels, g.pending);
                if n < g.pending.len() {
                    Err("Undefined label: "@ + g.pending[n].1)
                } else {
                    Ok(patch_prefix(words_le(final_words(c, g, is)), g.labels, g.pending, g.pending.len() as int))
                }
            },
        }
    }
}

/// The machine limits of compiling: at most 65536 names, code within the
/// reach of a branch, and an entry of `strings` and `ints` per instruction.
pub open spec fn jit_fits(params: Seq<Seq<char>>, is: Seq<InstrView>, env: &JitEnv) -> bool {
    &&& var_order(params, is).len() <= 0x10000
    &&& env.strings@.len() == is.len()
    &&& env.ints@.len() == is.len()
    &&& forall|preserve: usize| #[trigger] run(jit_ctx(params, is, env), start_state(params, is, preserve, env), is, is.len() as int) matches Ok(g)
        ==> final_words(jit_ctx(params, is, env), g, is).len() <= 0x1000_0000
}

/// Machine code as it is written: the bytes, and the words they encode.
struct Code {
    enc: ArithmeticEncoder,
    words: Ghost<Seq<u32>>,
}

impl Code {
    /// The words written so far.
    closed spec fn ws(&self) -> Seq<u32> {
        self.words@
    }

    closed spec fn wf(&self) -> bool {
        self.enc.bytes() == words_le(self.words@)
    }

    fn new() -> (c: Self)
        ensures
            c.wf(),
            c.ws() == Seq::<u32>::empty(),
    {
        let c = Code { enc: ArithmeticEncoder::new(), words: Ghost(Seq::empty()) };
        assert(words_le(Seq::<u32>::empty()) =~= Seq::<u8>::empty());
        c
    }

    /// The number of bytes written.
    fn len(&self) -> (n: usize)
        requires
            self.wf(),
        ensures
            n == 4 * self.ws().len(),
    {
        proof {
            lemma_words_le_len(self.ws());
        }
        self.enc.len()
    }

    fn into_bytes(self) -> (r: Vec<u8>)
        requires
            self.wf(),
        ensures
            r@ == words_le(self.ws()),
    {
        self.enc.into_bytes()
    }

    fn word(&mut self, w: u32)
        requires
            old(self).wf(),
        ensures
            final(self).wf(),
            final(self).ws() == old(self).ws().push(w),
    {
        let ghost before = self.words@;
        self.enc.emit_u32_le(w);
        proof {
            assert(before.push(w).drop_last() =~= before);
            self.words = Ghost(before.push(w));
        }
    }

    fn extend(&mut self, ws: Ghost<Seq<u32>>)
        requires
            old(self).enc.bytes() == words_le(old(self).ws()) + words_le(ws@),
        ensures
            final(self).wf(),
            final(self).ws() == old(self).ws() + ws@,
            final(self).enc == old(self).enc,
    {
        proof {
            lemma_words_le_append(self.words@, ws@);
            self.words = Ghost(self.words@ + ws@);
        }
    }

    fn load(&mut self, t: u8, loc: Location)
        requires
            old(self).wf(),
        ensures
            final(self).wf(),
            final(self).ws() == old(self).ws() + load_words(t, loc),
    {
        self.enc.load_to_reg(t, loc);
        self.extend(Ghost(load_words(t, loc)));
    }

    fn store(&mut self, s: u8, loc: Location)
        requires
            old(self).wf(),
        ensures
            final(self).wf(),
            final(self).ws() == old(self).ws() + store_words(s, loc),
    {
        self.enc.store_from_reg(s, loc);
        self.extend(Ghost(store_words(s, loc)));
    }

    fn call(&mut self, addr: u64)
        requires
            old(self).wf(),
        ensures
            final(self).wf(),
            final(self).ws() == old(self).ws() + call_words(addr),
    {
        self.enc.emit_call(addr);
        self.extend(Ghost(call_words(addr)));
    }

    fn mov64(&mut self, r: u8, value: u64)
        requires
            old(self).wf(),
        ensures
            final(self).wf(),
            final(self).ws() == old(self).ws() + mov64_seq(Reg::X(r), value),
    {
        self.enc.emit_mov64(Reg::X(r), value);
        self.extend(Ghost(mov64_seq(Reg::X(r), value)));
    }

    fn mv(&mut self, d: u8, s: u8)
        requires
            old(self).wf(),
        ensures
            final(self).wf(),
            final(self).ws() == old(self).ws().push(mv(d, s)),
    {
        self.word(encode_add_imm(Reg::X(d), Reg::X(s), 0));
    }

    fn save(&mut self)
        requires
            old(self).wf(),
        ensures
            final(self).wf(),
            final(self).ws() == old(self).ws() + save_words(),
    {
        self.word(encode_sub_imm(Reg::SP, Reg::SP, 64));
        let mut r: u16 = 0;
        while r < 8
            invariant
                0 <= r <= 8,
                self.wf(),
                self.ws() == old(self).ws() + seq![spec_sub_imm(Reg::SP, Reg::SP, 64)] + Seq::new(
                    r as nat,
                    |i: int| spec_str_imm(Reg::X(i as u8), Reg::SP, (i * 8) as u16),
                ),
            decreases 8 - r,
        {
            let ghost before = self.ws();
            self.word(encode_str_imm(Reg::X(r as u8), Reg::SP, r * 8));
            assert(self.ws() =~= old(self).ws() + seq![spec_sub_imm(Reg::SP, Reg::SP, 64)] + Seq::new(
                (r + 1) as nat,
                |i: int| spec_str_imm(Reg::X(i as u8), Reg::SP, (i * 8) as u16),
            ));
            r = r + 1;
        }
        assert(self.ws() =~= old(self).ws() + save_words());
    }

    fn restore(&mut self)
        requires
            old(self).wf(),
        ensures
            final(self).wf(),
            final(self).ws() == old(self).ws() + restore_words(),
    {
        let mut r: u16 = 0;
        while r < 8
            invariant
                0 <= r <= 8,
                self.wf(),
                self.ws() == old(self).ws() + Seq::new(
                    r as nat,
                    |i: int| spec_ldr_imm(Reg::X(i as u8), Reg::SP, (i * 8) as u16),
                ),
            decreases 8 - r,
        {
            self.word(encode_ldr_imm(Reg::X(r as u8), Reg::SP, r * 8));
            assert(self.ws() =~= old(self).ws() + Seq::new(
                (r + 1) as nat,
                |i: int| spec_ldr_imm(Reg::X(i as u8), Reg::SP, (i * 8) as u16),
            ));
            r = r + 1;
        }
        self.word(encode_add_imm(Reg::SP, Reg::SP, 64));
        assert(self.ws() =~= old(self).ws() + restore_words());
    }

    fn call1(&mut self, h: u64, a: Location)
        requires
            old(self).wf(),
        ensures
            final(self).wf(),
            final(self).ws() == old(self).ws() + call1_words(h, a),
    {
        self.save();
        self.load(9, a);
        self.mv(0, 9);
        self.call(h);
        self.mv(9, 0);
        self.restore();
        assert(self.ws() =~= old(self).ws() + call1_words(h, a));
    }

    fn call2(&mut self, h: u64, a: Location, b: Location)
        requires
            old(self).wf(),
        ensures
            final(self).wf(),
            final(self).ws() == old(self).ws() + call2_words(h, a, b),
    {
        self.save();
        self.load(9, a);
        self.load(10, b);
        self.mv(0, 9);
        self.mv(1, 10);
        self.call(h);
        self.mv(9, 0);
        self.restore();
        assert(self.ws() =~= old(self).ws() + call2_words(h, a, b));
    }

    #[verifier::rlimit(40)]
    fn call3(&mut self, h: u64, a: Location, b: Location, c: Location)
        requires
            old(self).wf(),
        ensures
            final(self).wf(),
            final(self).ws() == old(self).ws() + call3_words(h, a, b, c),
    {
        self.save();
        self.load(9, a);
        self.load(10, b);
        self.load(11, c);
        self.mv(0, 9);
        self.mv(1, 10);
        self.mv(2, 11);
        self.call(h);
        self.restore();
        assert(self.ws() =~= old(self).ws() + call3_words(h, a, b, c));
    }

    fn release(&mut self, h: u64, a: Location)
        requires
            old(self).wf(),
        ensures
            final(self).wf(),
            final(self).ws() == old(self).ws() + release_words(h, a),
    {
        self.save();
        self.load(0, a);
        self.call(h);
        self.restore();
        assert(self.ws() =~= old(self).ws() + release_words(h, a));
    }

    fn print(&mut self, h: u64, a: Location)
        requires
            old(self).wf(),
        ensures
            final(self).wf(),
            final(self).ws() == old(self).ws() + print_words(h, a),
    {
        self.save();
        self.load(9, a);
        self.mv(0, 9);
        self.call(h);
        self.restore();
        assert(self.ws() =~= old(self).ws() + print_words(h, a));
    }

    fn string(&mut self, h: u64, bytes: (u64, u64), into: u8)
        requires
            old(self).wf(),
        ensures
            final(self).wf(),
            final(self).ws() == old(self).ws() + string_words(h, bytes, into),
    {
        self.save();
        self.mov64(0, bytes.0);
        self.mov64(1, bytes.1);
        self.call(h);
        self.mv(into, 0);
        self.restore();
        assert(self.ws() =~= old(self).ws() + string_words(h, bytes, into));
    }

    fn truth(&mut self, h: u64, a: Location)
        requires
            old(self).wf(),
        ensures
            final(self).wf(),
            final(self).ws() == old(self).ws() + truth_words(h, a),
    {
        self.save();
        self.load(9, a);
        self.mv(0, 9);
        self.call(h);
        self.mv(9, 0);
        self.restore();
        self.word(encode_cmp_imm(Reg::X(9), 1));
        assert(self.ws() =~= old(self).ws() + truth_words(h, a));
    }

    fn epilogue(&mut self, frame: u16)
        requires
            old(self).wf(),
        ensures
            final(self).wf(),
            final(self).ws() == old(self).ws() + epilogue_words(frame),
    {
        if frame != 0 {
            self.word(encode_add_imm(Reg::SP, Reg::SP, frame));
        }
        self.word(encode_ldp_fp_lr());
        self.word(encode_ret());
        assert(self.ws() =~= old(self).ws() + epilogue_words(frame));
    }
}

/// The words of a successful piece of code (none for an error).
pub open spec fn ok_words(r: Result<Seq<u32>, Seq<char>>) -> Seq<u32> {
    match r {
        Ok(w) => w,
        Err(_) => Seq::empty(),
    }
}

/// Whether a step ended as `s` says: the same error, or success in state `after`.
pub open spec fn outcome(r: Result<(), String>, s: Result<GenView, Seq<char>>, after: GenView) -> bool {
    match s {
        Ok(g) => r is Ok && after == g,
        Err(e) => r matches Err(m) && m@ == e,
    }
}

/// The executable context agrees with `c`.
pub open spec fn ctx_ok(c: JitCtx, regs: &RegisterMap, env: &JitEnv) -> bool {
    &&& regs.locations() == c.locs
    &&& c.helpers == env.helpers
    &&& c.strings == env.strings@
    &&& c.ints == env.ints@
    &&& c.functions == env.functions@
    &&& c.current == opt_view(env.current)
}

/// The first of `vs` with no location is the first in any prefix that has one.
proof fn lemma_first_missing_prefix(locs: Map<Seq<char>, Location>, vs: Seq<Seq<char>>, k: int)
    requires
        0 <= k <= vs.len(),
        first_missing(locs, vs.take(k)) is Some,
    ensures
        first_missing(locs, vs) == first_missing(locs, vs.take(k)),
    decreases vs.len() - k,
{
    if k == vs.len() {
        assert(vs.take(k) =~= vs);
    } else {
        assert(vs.take(k + 1).drop_last() =~= vs.take(k));
        lemma_first_missing_prefix(locs, vs, k + 1);
    }
}

/// The location of `v`, or the error for a name with none.
fn loc_of(regs: &RegisterMap, v: &str) -> (r: Result<Location, String>)
    ensures
        match r {
            Ok(l) => regs.locations().contains_key(v@) && l == regs.locations()[v@],
            Err(m) => !regs.locations().contains_key(v@) && m@ == undefined(v@),
        },
{
    match regs.get(v) {
        Some(l) => Ok(l),
        None => Err(concat("Undefined var: ", v)),
    }
}

/// The locations of `vs`, or the error for the first with none.
fn locs_of_all(regs: &RegisterMap, vs: &Vec<String>) -> (r: Result<Vec<Location>, String>)
    ensures
        match r {
            Ok(ls) => first_missing(regs.locations(), names_view(vs@)) is None && ls@.len() == vs@.len()
                && forall|i: int| 0 <= i < vs@.len() ==> #[trigger] ls@[i] == regs.locations()[vs@[i]@],
            Err(m) => first_missing(regs.locations(), names_view(vs@)) matches Some(v) && m@ == undefined(v),
        },
{
    let ghost locs = regs.locations();
    let ghost ns = names_view(vs@);
    let mut ls: Vec<Location> = Vec::new();
    let mut i: usize = 0;
    while i < vs.len()
        invariant
            0 <= i <= vs.len(),
            locs == regs.locations(),
            ns == names_view(vs@),
            first_missing(locs, ns.take(i as int)) is None,
            ls@.len() == i,
            forall|j: int| 0 <= j < i ==> #[trigger] ls@[j] == locs[vs@[j]@],
        decreases vs.len() - i,
    {
        proof {
            assert(ns.take(i + 1).drop_last() =~= ns.take(i as int));
            assert(ns.take(i + 1).last() == vs@[i as int]@);
        }
        match loc_of(regs, vs[i].as_str()) {
            Err(m) => {
                proof { lemma_first_missing_prefix(locs, ns, i + 1); }
                return Err(m);
            },
            Ok(l) => {
                ls.push(l);
            },
        }
        i = i + 1;
    }
    assert(ns.take(vs.len() as int) =~= ns);
    Ok(ls)
}


/// Every pending branch and every label lies within the words written.
pub open spec fn offsets_ok(g: GenView) -> bool {
    &&& forall|j: int| 0 <= j < g.pending.len() ==> #[trigger] g.pending[j].0 + 4 <= 4 * g.words.len()
    &&& forall|l: Seq<char>| #[trigger] g.labels.contains_key(l) ==> g.labels[l] <= 4 * g.words.len()
}

/// Writing more words keeps every offset within the words.
proof fn lemma_emit_offsets(g: GenView, ws: Seq<u32>)
    requires
        offsets_ok(g),
    ensures
        offsets_ok(emit(g, ws)),
{
    let e = emit(g, ws);
    assert forall|j: int| 0 <= j < e.pending.len() implies #[trigger] e.pending[j].0 + 4 <= 4 * e.words.len() by {
        assert(g.pending[j].0 + 4 <= 4 * g.words.len());
    }
    assert forall|l: Seq<char>| #[trigger] e.labels.contains_key(l) implies e.labels[l] <= 4 * e.words.len() by {
        assert(g.labels[l] <= 4 * g.words.len());
    }
}

/// The compiler's state.
struct Gen {
    code: Code,
    assigned: Vec<String>,
    labels: LabelManager,
    returned: bool,
}

impl Gen {
    closed spec fn view(&self) -> GenView {
        GenView {
            assigned: names_view(self.assigned@),
            labels: self.labels.label_map(),
            pending: self.labels.branches(),
            words: self.code.ws(),
            returned: self.returned,
        }
    }

    closed spec fn wf(&self) -> bool {
        self.code.wf() && offsets_ok(self.view())
    }

    fn is_assigned(&self, d: &str) -> (r: bool)
        ensures
            r == self.view().assigned.contains(d@),
    {
        let ghost ns = names_view(self.assigned@);
        let mut i: usize = 0;
        while i < self.assigned.len()
            invariant
                0 <= i <= self.assigned.len(),
                ns == names_view(self.assigned@),
                forall|j: int| 0 <= j < i ==> ns[j] != d@,
            decreases self.assigned.len() - i,
        {
            if same_text(self.assigned[i].as_str(), d) {
                assert(ns[i as int] == d@);
                return true;
            }
            i = i + 1;
        }
        false
    }

    fn assign(&mut self, d: &str)
        requires
            old(self).wf(),
        ensures
            final(self).wf(),
            final(self).view() == assign(old(self).view(), d@),
    {
        if !self.is_assigned(d) {
            let ghost before = self.assigned@;
            self.assigned.push(d.to_owned());
            assert(names_view(self.assigned@) =~= names_view(before).push(d@));
            assert(self.view().pending == old(self).view().pending);
            assert(self.view().labels == old(self).view().labels);
            assert(self.view().words == old(self).view().words);
        }
    }

    fn release_old(&mut self, Ghost(c): Ghost<JitCtx>, regs: &RegisterMap, env: &JitEnv, d: &str) -> (r: Result<(), String>)
        requires
            old(self).wf(),
            ctx_ok(c, regs, env),
        ensures
            match release_old(c, old(self).view(), d@) {
                Ok(w) => r is Ok && final(self).wf() && final(self).view() == emit(old(self).view(), w),
                Err(e) => r matches Err(m) && m@ == e,
            },
    {
        if self.is_assigned(d) {
            match loc_of(regs, d) {
                Err(m) => return Err(m),
                Ok(l) => {
                    self.code.release(env.helpers.release, l);
                    proof { lemma_emit_offsets(old(self).view(), release_words(c.helpers.release, l)); }
                },
            }
        } else {
            assert(old(self).view().words + Seq::<u32>::empty() =~= old(self).view().words);
        }
        Ok(())
    }
}

impl Gen {
    fn binary(&mut self, Ghost(c): Ghost<JitCtx>, regs: &RegisterMap, env: &JitEnv, d: &str, h: u64, l: &str, r: &str) -> (res: Result<(), String>)
        requires
            old(self).wf(),
            ctx_ok(c, regs, env),
            c.locs.contains_key(d@),
        ensures
            outcome(res, binary(c, old(self).view(), d@, h, l@, r@), final(self).view()),
            res is Ok ==> final(self).wf(),
    {
        let ghost g0 = self.view();
        let ghost w = ok_words(release_old(c, g0, d@));
        match self.release_old(Ghost(c), regs, env, d) {
            Err(m) => return Err(m),
            Ok(()) => {},
        }
        let dst = regs.get(d).unwrap();
        let lloc = match loc_of(regs, l) {
            Err(m) => return Err(m),
            Ok(x) => x,
        };
        let rloc = match loc_of(regs, r) {
            Err(m) => return Err(m),
            Ok(x) => x,
        };
        self.code.call2(h, lloc, rloc);
        self.code.store(9, dst);
        proof {
            assert(self.view().words =~= g0.words + (w + (call2_words(h, lloc, rloc) + store_words(9, dst))));
        }
        self.assign(d);
        Ok(())
    }

    fn unary(&mut self, Ghost(c): Ghost<JitCtx>, regs: &RegisterMap, env: &JitEnv, d: &str, h: u64, src: &str) -> (res: Result<(), String>)
        requires
            old(self).wf(),
            ctx_ok(c, regs, env),
            c.locs.contains_key(d@),
        ensures
            outcome(res, unary(c, old(self).view(), d@, h, src@), final(self).view()),
            res is Ok ==> final(self).wf(),
    {
        let ghost g0 = self.view();
        let ghost w = ok_words(release_old(c, g0, d@));
        match self.release_old(Ghost(c), regs, env, d) {
            Err(m) => return Err(m),
            Ok(()) => {},
        }
        let dst = regs.get(d).unwrap();
        let sloc = match loc_of(regs, src) {
            Err(m) => return Err(m),
            Ok(x) => x,
        };
        self.code.call1(h, sloc);
        self.code.store(9, dst);
        proof {
            assert(self.view().words =~= g0.words + (w + (call1_words(h, sloc) + store_words(9, dst))));
        }
        self.assign(d);
        Ok(())
    }

    fn load_const(&mut self, Ghost(c): Ghost<JitCtx>, regs: &RegisterMap, env: &JitEnv, d: &str, value: &IrValue, k: usize) -> (res: Result<(), String>)
        requires
            old(self).wf(),
            ctx_ok(c, regs, env),
            c.locs.contains_key(d@),
            k < env.ints@.len(),
            k < env.strings@.len(),
        ensures
            outcome(res, load_const_step(c, old(self).view(), d@, value@, k as int), final(self).view()),
            res is Ok ==> final(self).wf(),
    {
        let ghost g0 = self.view();
        let ghost w = ok_words(release_old(c, g0, d@));
        match self.release_old(Ghost(c), regs, env, d) {
            Err(m) => return Err(m),
            Ok(()) => {},
        }
        let dst = regs.get(d).unwrap();
        let ghost pre: Seq<u32> = match value@ {
            ConstView::Number(_) => mov64_seq(Reg::X(9), tagged(c.ints[k as int])),
            ConstView::Bool(b) => mov64_seq(Reg::X(9), tagged(if b { 1 } else { 0 })),
            ConstView::String(_) => string_words(c.helpers.alloc_string, c.strings[k as int], 9),
        };
        match value {
            IrValue::Number(_) => {
                let n = env.ints[k];
                self.code.mov64(9, ((n as u64) << 1u64) | 1u64);
            },
            IrValue::Bool(b) => {
                let n: i64 = if *b { 1 } else { 0 };
                self.code.mov64(9, ((n as u64) << 1u64) | 1u64);
            },
            IrValue::String(_) => {
                self.code.string(env.helpers.alloc_string, env.strings[k], 9);
            },
        }
        self.code.store(9, dst);
        proof {
            assert(self.view().words =~= g0.words + (w + (pre + store_words(9, dst))));
        }
        self.assign(d);
        Ok(())
    }

    fn move_value(&mut self, Ghost(c): Ghost<JitCtx>, regs: &RegisterMap, env: &JitEnv, d: &str, src: &str) -> (res: Result<(), String>)
        requires
            old(self).wf(),
            ctx_ok(c, regs, env),
            c.locs.contains_key(d@),
        ensures
            outcome(res, move_step(c, old(self).view(), d@, src@), final(self).view()),
            res is Ok ==> final(self).wf(),
    {
        let ghost g0 = self.view();
        let ghost w = ok_words(release_old(c, g0, d@));
        match self.release_old(Ghost(c), regs, env, d) {
            Err(m) => return Err(m),
            Ok(()) => {},
        }
        let dst = regs.get(d).unwrap();
        let sloc = match loc_of(regs, src) {
            Err(m) => return Err(m),
            Ok(x) => x,
        };
        self.code.release(env.helpers.retain, sloc);
        self.code.load(9, sloc);
        self.code.store(9, dst);
        proof {
            assert(self.view().words =~= g0.words + (w + (release_words(c.helpers.retain, sloc) + load_words(9, sloc)
                + store_words(9, dst))));
        }
        self.assign(d);
        Ok(())
    }

    fn await_value(&mut self, Ghost(c): Ghost<JitCtx>, regs: &RegisterMap, env: &JitEnv, d: &str, task: &str) -> (res: Result<(), String>)
        requires
            old(self).wf(),
            ctx_ok(c, regs, env),
            c.locs.contains_key(d@),
        ensures
            outcome(res, await_step(c, old(self).view(), d@, task@), final(self).view()),
            res is Ok ==> final(self).wf(),
    {
        let ghost g0 = self.view();
        let ghost w = ok_words(release_old(c, g0, d@));
        match self.release_old(Ghost(c), regs, env, d) {
            Err(m) => return Err(m),
            Ok(()) => {},
        }
        let dst = regs.get(d).unwrap();
        let tloc = match loc_of(regs, task) {
            Err(m) => return Err(m),
            Ok(x) => x,
        };
        self.code.load(9, tloc);
        self.code.store(9, dst);
        proof {
            assert(self.view().words =~= g0.words + (w + (load_words(9, tloc) + store_words(9, dst))));
        }
        self.assign(d);
        Ok(())
    }

    fn alloc_map(&mut self, Ghost(c): Ghost<JitCtx>, regs: &RegisterMap, env: &JitEnv, d: &str) -> (res: Result<(), String>)
        requires
            old(self).wf(),
            ctx_ok(c, regs, env),
            c.locs.contains_key(d@),
        ensures
            outcome(res, alloc_map_step(c, old(self).view(), d@), final(self).view()),
            res is Ok ==> final(self).wf(),
    {
        let ghost g0 = self.view();
        let ghost w = ok_words(release_old(c, g0, d@));
        match self.release_old(Ghost(c), regs, env, d) {
            Err(m) => return Err(m),
            Ok(()) => {},
        }
        let dst = regs.get(d).unwrap();
        self.code.save();
        self.code.call(env.helpers.alloc_map);
        self.code.mv(9, 0);
        self.code.restore();
        self.code.store(9, dst);
        proof {
            assert(self.view().words =~= g0.words + (w + (save_words() + call_words(c.helpers.alloc_map) + seq![mv(9, 0)]
                + restore_words() + store_words(9, dst))));
        }
        self.assign(d);
        Ok(())
    }
}

impl Code {
    fn new_list(&mut self, h: u64, n: u64, dst: Location)
        requires
            old(self).wf(),
        ensures
            final(self).wf(),
            final(self).ws() == old(self).ws() + new_list_words(h, n, dst),
    {
        self.save();
        self.mov64(0, n);
        self.call(h);
        self.mv(9, 0);
        self.restore();
        self.store(9, dst);
        assert(self.ws() =~= old(self).ws() + new_list_words(h, n, dst));
    }

    fn pushes(&mut self, h: u64, list: Location, ls: &Vec<Location>, Ghost(locs): Ghost<Map<Seq<char>, Location>>, Ghost(ns): Ghost<Seq<Seq<char>>>)
        requires
            old(self).wf(),
            ls@.len() == ns.len(),
            forall|j: int| 0 <= j < ns.len() ==> #[trigger] ls@[j] == locs[ns[j]],
        ensures
            final(self).wf(),
            final(self).ws() == old(self).ws() + push_words(h, list, locs, ns),
    {
        let mut i: usize = 0;
        while i < ls.len()
            invariant
                self.wf(),
                0 <= i <= ls.len(),
                ls@.len() == ns.len(),
                forall|j: int| 0 <= j < ns.len() ==> #[trigger] ls@[j] == locs[ns[j]],
                self.ws() == old(self).ws() + push_words(h, list, locs, ns.take(i as int)),
            decreases ls.len() - i,
        {
            self.call2(h, list, ls[i]);
            proof {
                assert(ns.take(i + 1).drop_last() =~= ns.take(i as int));
                assert(ns.take(i + 1).last() == ns[i as int]);
                assert(self.ws() =~= old(self).ws() + push_words(h, list, locs, ns.take(i + 1)));
            }
            i = i + 1;
        }
        assert(ns.take(ls.len() as int) =~= ns);
    }
}

impl Gen {
    fn alloc_list(&mut self, Ghost(c): Ghost<JitCtx>, regs: &RegisterMap, env: &JitEnv, d: &str, items: &Vec<String>) -> (res: Result<(), String>)
        requires
            old(self).wf(),
            ctx_ok(c, regs, env),
            c.locs.contains_key(d@),
        ensures
            outcome(
                res,
                alloc_list_step(c, old(self).view(), d@, names_view(items@)),
                final(self).view(),
            ),
            res is Ok ==> final(self).wf(),
    {
        let ghost g0 = self.view();
        let ghost w = ok_words(release_old(c, g0, d@));
        match self.release_old(Ghost(c), regs, env, d) {
            Err(m) => return Err(m),
            Ok(()) => {},
        }
        let dst = regs.get(d).unwrap();
        let ls = match locs_of_all(regs, items) {
            Err(m) => return Err(m),
            Ok(ls) => ls,
        };
        let ghost ns = names_view(items@);
        assert forall|j: int| 0 <= j < ns.len() implies #[trigger] ls@[j] == c.locs[ns[j]] by {
            assert(ns[j] == items@[j]@);
        }
        self.code.new_list(env.helpers.alloc_list, items.len() as u64, dst);
        self.code.pushes(env.helpers.list_push, dst, &ls, Ghost(c.locs), Ghost(ns));
        proof {
            assert(self.view().words =~= g0.words + (w + (new_list_words(c.helpers.alloc_list, items@.len() as u64, dst)
                + push_words(c.helpers.list_push, dst, c.locs, ns))));
        }
        self.assign(d);
        Ok(())
    }
}

impl Code {
    fn set_member(&mut self, h: Helpers, bytes: (u64, u64), obj: Location, value: Location)
        requires
            old(self).wf(),
        ensures
            final(self).wf(),
            final(self).ws() == old(self).ws() + set_member_words(h, bytes, obj, value),
    {
        self.string(h.alloc_string, bytes, 10);
        self.save();
        self.load(9, obj);
        self.load(11, value);
        self.mv(0, 9);
        self.mv(1, 10);
        self.mv(2, 11);
        self.call(h.map_set);
        self.restore();
        assert(self.ws() =~= old(self).ws() + set_member_words(h, bytes, obj, value));
    }

    fn get_member(&mut self, h: Helpers, bytes: (u64, u64), obj: Location)
        requires
            old(self).wf(),
        ensures
            final(self).wf(),
            final(self).ws() == old(self).ws() + get_member_words(h, bytes, obj),
    {
        self.string(h.alloc_string, bytes, 10);
        self.save();
        self.load(9, obj);
        self.mv(0, 9);
        self.mv(1, 10);
        self.call(h.map_get);
        self.mv(9, 0);
        self.restore();
        assert(self.ws() =~= old(self).ws() + get_member_words(h, bytes, obj));
    }
}

impl Gen {
    fn store3(&mut self, Ghost(c): Ghost<JitCtx>, regs: &RegisterMap, env: &JitEnv, h: u64, a: &str, b: &str, v: &str) -> (res: Result<(), String>)
        requires
            old(self).wf(),
            ctx_ok(c, regs, env),
        ensures
            outcome(res, store3_step(c, old(self).view(), h, a@, b@, v@), final(self).view()),
            res is Ok ==> final(self).wf(),
    {
        let la = match loc_of(regs, a) {
            Err(m) => return Err(m),
            Ok(x) => x,
        };
        let lb = match loc_of(regs, b) {
            Err(m) => return Err(m),
            Ok(x) => x,
        };
        let lv = match loc_of(regs, v) {
            Err(m) => return Err(m),
            Ok(x) => x,
        };
        self.code.call3(h, la, lb, lv);
        Ok(())
    }

    fn set_member(&mut self, Ghost(c): Ghost<JitCtx>, regs: &RegisterMap, env: &JitEnv, obj: &str, value: &str, k: usize) -> (res: Result<(), String>)
        requires
            old(self).wf(),
            ctx_ok(c, regs, env),
            k < env.strings@.len(),
        ensures
            outcome(res, set_member_step(c, old(self).view(), obj@, value@, k as int), final(self).view()),
            res is Ok ==> final(self).wf(),
    {
        let lo = match loc_of(regs, obj) {
            Err(m) => return Err(m),
            Ok(x) => x,
        };
        let lv = match loc_of(regs, value) {
            Err(m) => return Err(m),
            Ok(x) => x,
        };
        self.code.set_member(env.helpers, env.strings[k], lo, lv);
        Ok(())
    }

    fn get_member(&mut self, Ghost(c): Ghost<JitCtx>, regs: &RegisterMap, env: &JitEnv, d: &str, obj: &str, k: usize) -> (res: Result<(), String>)
        requires
            old(self).wf(),
            ctx_ok(c, regs, env),
            c.locs.contains_key(d@),
            k < env.strings@.len(),
        ensures
            outcome(res, get_member_step(c, old(self).view(), d@, obj@, k as int), final(self).view()),
            res is Ok ==> final(self).wf(),
    {
        let ghost g0 = self.view();
        let ghost w = ok_words(release_old(c, g0, d@));
        match self.release_old(Ghost(c), regs, env, d) {
            Err(m) => return Err(m),
            Ok(()) => {},
        }
        let dst = regs.get(d).unwrap();
        let lo = match loc_of(regs, obj) {
            Err(m) => return Err(m),
            Ok(x) => x,
        };
        self.code.get_member(env.helpers, env.strings[k], lo);
        self.code.store(9, dst);
        proof {
            assert(self.view().words =~= g0.words + (w + (get_member_words(c.helpers, c.strings[k as int], lo)
                + store_words(9, dst))));
        }
        self.assign(d);
        Ok(())
    }

    fn print_value(&mut self, Ghost(c): Ghost<JitCtx>, regs: &RegisterMap, env: &JitEnv, src: &str) -> (res: Result<(), String>)
        requires
            old(self).wf(),
            ctx_ok(c, regs, env),
        ensures
            outcome(res, print_step(c, old(self).view(), src@), final(self).view()),
            res is Ok ==> final(self).wf(),
    {
        let l = match loc_of(regs, src) {
            Err(m) => return Err(m),
            Ok(x) => x,
        };
        self.code.print(env.helpers.print, l);
        Ok(())
    }

    fn spawn_task(&mut self, Ghost(c): Ghost<JitCtx>, regs: &RegisterMap, env: &JitEnv, task: &str) -> (res: Result<(), String>)
        requires
            old(self).wf(),
            ctx_ok(c, regs, env),
        ensures
            outcome(res, spawn_step(c, old(self).view(), task@), final(self).view()),
            res is Ok ==> final(self).wf(),
    {
        let l = match loc_of(regs, task) {
            Err(m) => return Err(m),
            Ok(x) => x,
        };
        self.code.load(9, l);
        self.code.store(9, l);
        assert(self.code.ws() =~= old(self).code.ws() + (load_words(9, l) + store_words(9, l)));
        Ok(())
    }

    fn label(&mut self, name: &str)
        requires
            old(self).wf(),
        ensures
            final(self).wf(),
            final(self).view() == label_step(old(self).view(), name@),
    {
        let off = self.code.len();
        self.labels.define_label(name, off);
        proof {
            let g = old(self).view();
            let e = self.view();
            assert forall|l: Seq<char>| #[trigger] e.labels.contains_key(l) implies e.labels[l] <= 4 * e.words.len() by {
                if l != name@ {
                    assert(g.labels.contains_key(l));
                }
            }
            assert forall|j: int| 0 <= j < e.pending.len() implies #[trigger] e.pending[j].0 + 4 <= 4 * e.words.len() by {
                assert(g.pending[j] == e.pending[j]);
            }
        }
    }

    fn branch(&mut self, label: &str, kind: BranchKind)
        requires
            old(self).wf(),
        ensures
            final(self).wf(),
            final(self).view() == branch_step(old(self).view(), label@, kind),
    {
        let off = self.code.len();
        self.labels.record_branch(off, label, kind);
        self.code.word(0);
        proof {
            let g = old(self).view();
            let e = self.view();
            assert forall|l: Seq<char>| #[trigger] e.labels.contains_key(l) implies e.labels[l] <= 4 * e.words.len() by {
                assert(g.labels.contains_key(l));
            }
            assert forall|j: int| 0 <= j < e.pending.len() implies #[trigger] e.pending[j].0 + 4 <= 4 * e.words.len() by {
                if j < g.pending.len() {
                    assert(g.pending[j] == e.pending[j]);
                }
            }
        }
    }

    fn jump_if(&mut self, Ghost(c): Ghost<JitCtx>, regs: &RegisterMap, env: &JitEnv, cond: &str, label: &str) -> (res: Result<(), String>)
        requires
            old(self).wf(),
            ctx_ok(c, regs, env),
        ensures
            outcome(res, jump_if_step(c, old(self).view(), cond@, label@), final(self).view()),
            res is Ok ==> final(self).wf(),
    {
        let l = match loc_of(regs, cond) {
            Err(m) => return Err(m),
            Ok(x) => x,
        };
        self.code.truth(env.helpers.is_truthy, l);
        self.branch(label, BranchKind::BNe);
        Ok(())
    }

    /// The releases of the assigned values other than `skip`.
    fn release_all(&mut self, Ghost(c): Ghost<JitCtx>, regs: &RegisterMap, env: &JitEnv, skip: Option<&str>)
        requires
            old(self).wf(),
            ctx_ok(c, regs, env),
        ensures
            final(self).wf(),
            final(self).view() == emit(
                old(self).view(),
                releases(
                    c,
                    old(self).view().assigned,
                    match skip {
                        Some(v) => Some(v@),
                        None => None,
                    },
                ),
            ),
    {
        let ghost sk: Option<Seq<char>> = match skip {
            Some(v) => Some(v@),
            None => None,
        };
        let ghost g0 = self.view();
        let ghost ns = g0.assigned;
        let mut i: usize = 0;
        while i < self.assigned.len()
            invariant
                self.wf(),
                ctx_ok(c, regs, env),
                0 <= i <= self.assigned.len(),
                ns == names_view(self.assigned@),
                offsets_ok(g0),
                sk == (match skip {
                    Some(v) => Some(v@),
                    None => None::<Seq<char>>,
                }),
                self.view() == emit(g0, releases(c, ns.take(i as int), sk)),
            decreases self.assigned.len() - i,
        {
            let ghost before = self.code.ws();
            let skipped = match skip {
                Some(v) => same_text(self.assigned[i].as_str(), v),
                None => false,
            };
            proof {
                assert(ns.take(i + 1).drop_last() =~= ns.take(i as int));
                assert(ns.take(i + 1).last() == self.assigned@[i as int]@);
                assert(ns[i as int] == self.assigned@[i as int]@);
                assert(skipped == (sk == Some(ns[i as int])));
                assert(before == g0.words + releases(c, ns.take(i as int), sk));
            }
            if !skipped {
                match regs.get(self.assigned[i].as_str()) {
                    Some(l) => {
                        self.code.release(env.helpers.release, l);
                    },
                    None => {},
                }
            }
            proof {
                assert(self.code.ws() =~= g0.words + releases(c, ns.take(i + 1), sk));
                lemma_emit_offsets(g0, releases(c, ns.take(i + 1), sk));
            }
            i = i + 1;
        }
        assert(ns.take(self.assigned.len() as int) =~= ns);
    }

    fn ret(&mut self, Ghost(c): Ghost<JitCtx>, regs: &RegisterMap, env: &JitEnv, frame: u16, value: &Option<String>) -> (res: Result<(), String>)
        requires
            old(self).wf(),
            ctx_ok(c, regs, env),
            c.frame == frame,
        ensures
            outcome(res, return_step(c, old(self).view(), opt_view(*value)), final(self).view()),
            res is Ok ==> final(self).wf(),
    {
        let ghost g0 = self.view();
        match value {
            Some(v) => {
                let l = match loc_of(regs, v.as_str()) {
                    Err(m) => return Err(m),
                    Ok(x) => x,
                };
                self.code.load(0, l);
                self.release_all(Ghost(c), regs, env, Some(v.as_str()));
                self.code.epilogue(frame);
                self.returned = true;
                assert(self.view().words =~= g0.words + (load_words(0, l) + releases(c, g0.assigned, Some(v@))
                    + epilogue_words(frame)));
            },
            None => {
                self.code.mov64(0, 1);
                self.release_all(Ghost(c), regs, env, None);
                self.code.epilogue(frame);
                self.returned = true;
                assert(tagged(0) == 1u64) by (bit_vector);
                assert(self.view().words =~= g0.words + (mov64_seq(Reg::X(0), tagged(0)) + releases(c, g0.assigned, None)
                    + epilogue_words(frame)));
            },
        }
        Ok(())
    }
}

/// The words before a call's result is stored: none, the tagged zero, or
/// the length of the list at `list`.
pub open spec fn pre_words(pre: u8, h: Helpers, list: Location) -> Seq<u32> {
    if pre == 1 {
        mov64_seq(Reg::X(9), tagged(0))
    } else if pre == 2 {
        call1_words(h.list_len, list)
    } else {
        Seq::empty()
    }
}

/// The helper of a one-argument built-in, if `f` is one.
fn builtin1_of(h: &Helpers, f: &str) -> (r: Option<u64>)
    ensures
        r == builtin1(*h, f@),
{
    if same_text(f, "len") {
        Some(h.list_len)
    } else if same_text(f, "str") {
        Some(h.to_str)
    } else if same_text(f, "num") {
        Some(h.to_num)
    } else if same_text(f, "keys") {
        Some(h.map_keys)
    } else if same_text(f, "values") {
        Some(h.map_values)
    } else if same_text(f, "pop") {
        Some(h.list_pop)
    } else if same_text(f, "abs") {
        Some(h.abs)
    } else if same_text(f, "sqrt") {
        Some(h.sqrt)
    } else if same_text(f, "is_map") {
        Some(h.is_map)
    } else if same_text(f, "is_list") {
        Some(h.is_list)
    } else if same_text(f, "is_string") {
        Some(h.is_string)
    } else {
        None
    }
}

/// The helper of a two-argument built-in with a result, if `f` is one.
fn builtin2_of(h: &Helpers, f: &str) -> (r: Option<u64>)
    ensures
        r == builtin2(*h, f@),
{
    if same_text(f, "range") {
        Some(h.range)
    } else if same_text(f, "min") {
        Some(h.min)
    } else if same_text(f, "max") {
        Some(h.max)
    } else if same_text(f, "pow") {
        Some(h.pow)
    } else if same_text(f, "contains") {
        Some(h.contains)
    } else {
        None
    }
}

impl Code {
    fn load_args(&mut self, ls: &Vec<Location>, Ghost(locs): Ghost<Map<Seq<char>, Location>>, Ghost(ns): Ghost<Seq<Seq<char>>>)
        requires
            old(self).wf(),
            ls@.len() == ns.len(),
            ns.len() <= 8,
            forall|j: int| 0 <= j < ns.len() ==> #[trigger] ls@[j] == locs[ns[j]],
        ensures
            final(self).wf(),
            final(self).ws() == old(self).ws() + arg_words(locs, ns),
    {
        let mut i: usize = 0;
        while i < ls.len()
            invariant
                self.wf(),
                0 <= i <= ls.len(),
                ls@.len() == ns.len(),
                ns.len() <= 8,
                forall|j: int| 0 <= j < ns.len() ==> #[trigger] ls@[j] == locs[ns[j]],
                self.ws() == old(self).ws() + arg_words(locs, ns.take(i as int)),
            decreases ls.len() - i,
        {
            self.load(i as u8, ls[i]);
            proof {
                assert(ns.take(i + 1).drop_last() =~= ns.take(i as int));
                assert(ns.take(i + 1).last() == ns[i as int]);
                assert(self.ws() =~= old(self).ws() + arg_words(locs, ns.take(i + 1)));
            }
            i = i + 1;
        }
        assert(ns.take(ls.len() as int) =~= ns);
    }
}

impl Gen {
    fn call_result(&mut self, Ghost(c): Ghost<JitCtx>, regs: &RegisterMap, env: &JitEnv, dest: &Option<String>, pre: u8, list: Location) -> (res: Result<(), String>)
        requires
            old(self).wf(),
            ctx_ok(c, regs, env),
            dest matches Some(d) ==> c.locs.contains_key(d@),
        ensures
            outcome(res, call_result(c, old(self).view(), opt_view(*dest), pre_words(pre, c.helpers, list)), final(self).view()),
            res is Ok ==> final(self).wf(),
    {
        match dest {
            None => Ok(()),
            Some(d) => {
                let ghost g0 = self.view();
                let ghost w = ok_words(release_old(c, g0, d@));
                match self.release_old(Ghost(c), regs, env, d.as_str()) {
                    Err(m) => return Err(m),
                    Ok(()) => {},
                }
                let dst = regs.get(d.as_str()).unwrap();
                if pre == 1 {
                    self.code.mov64(9, 1);
                    assert(tagged(0) == 1u64) by (bit_vector);
                } else if pre == 2 {
                    self.code.call1(env.helpers.list_len, list);
                } else {
                    assert(self.code.ws() + Seq::<u32>::empty() =~= self.code.ws());
                }
                self.code.store(9, dst);
                proof {
                    assert(self.view().words =~= g0.words + (w + (pre_words(pre, c.helpers, list) + store_words(9, dst))));
                }
                self.assign(d.as_str());
                Ok(())
            },
        }
    }

    #[verifier::rlimit(60)]
    fn call(&mut self, Ghost(c): Ghost<JitCtx>, regs: &RegisterMap, env: &JitEnv, dest: &Option<String>, f: &str, args: &Vec<String>) -> (res: Result<(), String>)
        requires
            old(self).wf(),
            ctx_ok(c, regs, env),
            dest matches Some(d) ==> c.locs.contains_key(d@),
        ensures
            outcome(res, call_step(c, old(self).view(), opt_view(*dest), f@, names_view(args@)), final(self).view()),
            res is Ok ==> final(self).wf(),
    {
        let ghost ns = names_view(args@);
        let ghost g0 = self.view();
        let h = env.helpers;
        let none = Location::Register(0);
        if same_text(f, "print") || same_text(f, "println") {
            if args.len() != 1 {
                return Err(concat(f, " expects 1 argument"));
            }
            assert(ns[0] == args@[0]@);
            let l = match loc_of(regs, args[0].as_str()) {
                Err(m) => return Err(m),
                Ok(x) => x,
            };
            self.code.print(h.print, l);
            return self.call_result(Ghost(c), regs, env, dest, 1, none);
        }
        let b1 = builtin1_of(&h, f);
        if args.len() == 1 && b1.is_some() {
            assert(ns[0] == args@[0]@);
            let l = match loc_of(regs, args[0].as_str()) {
                Err(m) => return Err(m),
                Ok(x) => x,
            };
            self.code.call1(b1.unwrap(), l);
            return self.call_result(Ghost(c), regs, env, dest, 0, none);
        }
        let b2 = builtin2_of(&h, f);
        let is_push = same_text(f, "push");
        if args.len() == 2 && (b2.is_some() || is_push) {
            assert(ns[0] == args@[0]@);
            assert(ns[1] == args@[1]@);
            let l0 = match loc_of(regs, args[0].as_str()) {
                Err(m) => return Err(m),
                Ok(x) => x,
            };
            let l1 = match loc_of(regs, args[1].as_str()) {
                Err(m) => return Err(m),
                Ok(x) => x,
            };
            if is_push {
                self.code.call2(h.list_push, l0, l1);
                return self.call_result(Ghost(c), regs, env, dest, 2, l0);
            } else {
                self.code.call2(b2.unwrap(), l0, l1);
                return self.call_result(Ghost(c), regs, env, dest, 0, none);
            }
        }
        if args.len() > 8 {
            return Err("More than 8 call args not supported yet".to_string());
        }
        let ls = match locs_of_all(regs, args) {
            Err(m) => return Err(m),
            Ok(ls) => ls,
        };
        assert forall|j: int| 0 <= j < ns.len() implies #[trigger] ls@[j] == c.locs[ns[j]] by {
            assert(ns[j] == args@[j]@);
        }
        self.code.save();
        self.code.load_args(&ls, Ghost(c.locs), Ghost(ns));
        let ghost g1 = emit(g0, save_words() + arg_words(c.locs, ns));
        assert(self.view() == g1) by {
            assert(self.view().words =~= g1.words);
        }
        let recursive = match &env.current {
            Some(cur) => same_text(cur.as_str(), f),
            None => false,
        };
        if recursive {
            self.branch("__fn_entry", BranchKind::BL);
            self.code.mv(9, 0);
            self.code.restore();
            let ghost g2 = branch_step(g1, "__fn_entry"@, BranchKind::BL);
            assert(self.view().words =~= emit(g2, seq![mv(9, 0)] + restore_words()).words);
        } else {
            match env.functions.get(f) {
                None => return Err(concat("Unknown function: ", f)),
                Some(addr) => {
                    self.code.call(*addr);
                    self.code.mv(9, 0);
                    self.code.restore();
                    assert(self.view().words =~= emit(g1, call_words(*addr) + seq![mv(9, 0)] + restore_words()).words);
                },
            }
        }
        self.call_result(Ghost(c), regs, env, dest, 0, none)
    }
}

impl Gen {
    fn instr(&mut self, Ghost(c): Ghost<JitCtx>, regs: &RegisterMap, env: &JitEnv, frame: u16, instr: &IrInstr, k: usize) -> (res: Result<(), String>)
        requires
            old(self).wf(),
            ctx_ok(c, regs, env),
            c.frame == frame,
            k < env.strings@.len(),
            k < env.ints@.len(),
            slot_of(instr@) matches Some(d) ==> c.locs.contains_key(d),
        ensures
            outcome(res, instr_step(c, old(self).view(), instr@, k as int), final(self).view()),
            res is Ok ==> final(self).wf(),
    {
        reveal(instr_step);
        let h = env.helpers;
        match instr {
            IrInstr::LoadConst { dest, value } => self.load_const(Ghost(c), regs, env, dest.as_str(), value, k),
            IrInstr::Move { dest, src } => self.move_value(Ghost(c), regs, env, dest.as_str(), src.as_str()),
            IrInstr::Add { dest, left, right } => self.binary(Ghost(c), regs, env, dest.as_str(), h.add, left.as_str(), right.as_str()),
            IrInstr::Sub { dest, left, right } => self.binary(Ghost(c), regs, env, dest.as_str(), h.sub, left.as_str(), right.as_str()),
            IrInstr::Mul { dest, left, right } => self.binary(Ghost(c), regs, env, dest.as_str(), h.mul, left.as_str(), right.as_str()),
            IrInstr::Div { dest, left, right } => self.binary(Ghost(c), regs, env, dest.as_str(), h.div, left.as_str(), right.as_str()),
            IrInstr::Eq { dest, left, right } => self.binary(Ghost(c), regs, env, dest.as_str(), h.eq, left.as_str(), right.as_str()),
            IrInstr::Ne { dest, left, right } => self.binary(Ghost(c), regs, env, dest.as_str(), h.ne, left.as_str(), right.as_str()),
            IrInstr::Lt { dest, left, right } => self.binary(Ghost(c), regs, env, dest.as_str(), h.lt, left.as_str(), right.as_str()),
            IrInstr::Gt { dest, left, right } => self.binary(Ghost(c), regs, env, dest.as_str(), h.gt, left.as_str(), right.as_str()),
            IrInstr::LogicAnd { dest, left, right } => self.binary(Ghost(c), regs, env, dest.as_str(), h.and, left.as_str(), right.as_str()),
            IrInstr::LogicOr { dest, left, right } => self.binary(Ghost(c), regs, env, dest.as_str(), h.or, left.as_str(), right.as_str()),
            IrInstr::FAdd { dest, left, right } => self.binary(Ghost(c), regs, env, dest.as_str(), h.float_add, left.as_str(), right.as_str()),
            IrInstr::FSub { dest, left, right } => self.binary(Ghost(c), regs, env, dest.as_str(), h.float_sub, left.as_str(), right.as_str()),
            IrInstr::FMul { dest, left, right } => self.binary(Ghost(c), regs, env, dest.as_str(), h.float_mul, left.as_str(), right.as_str()),
            IrInstr::FDiv { dest, left, right } => self.binary(Ghost(c), regs, env, dest.as_str(), h.float_div, left.as_str(), right.as_str()),
            IrInstr::GetIndex { dest, src, index } => self.binary(Ghost(c), regs, env, dest.as_str(), h.index_get, src.as_str(), index.as_str()),
            IrInstr::GetMap { dest, map, key } => self.binary(Ghost(c), regs, env, dest.as_str(), h.map_get, map.as_str(), key.as_str()),
            IrInstr::LogicNot { dest, src } => self.unary(Ghost(c), regs, env, dest.as_str(), h.not, src.as_str()),
            IrInstr::Input { dest, prompt } => self.unary(Ghost(c), regs, env, dest.as_str(), h.input, prompt.as_str()),
            IrInstr::AllocList { dest, items } => self.alloc_list(Ghost(c), regs, env, dest.as_str(), items),
            IrInstr::AllocMap { dest } => self.alloc_map(Ghost(c), regs, env, dest.as_str()),
            IrInstr::AllocStruct { dest, .. } => self.alloc_map(Ghost(c), regs, env, dest.as_str()),
            IrInstr::SetMap { map, key, value } => self.store3(Ghost(c), regs, env, h.map_set, map.as_str(), key.as_str(), value.as_str()),
            IrInstr::SetIndex { src, index, value } => self.store3(Ghost(c), regs, env, h.index_set, src.as_str(), index.as_str(), value.as_str()),
            IrInstr::SetMember { obj, value, .. } => self.set_member(Ghost(c), regs, env, obj.as_str(), value.as_str(), k),
            IrInstr::GetMember { dest, obj, .. } => self.get_member(Ghost(c), regs, env, dest.as_str(), obj.as_str(), k),
            IrInstr::Print { src } => self.print_value(Ghost(c), regs, env, src.as_str()),
            IrInstr::PrintNum { src } => self.print_value(Ghost(c), regs, env, src.as_str()),
            IrInstr::Call { dest, func, args } => self.call(Ghost(c), regs, env, dest, func.as_str(), args),
            IrInstr::Spawn { task } => self.spawn_task(Ghost(c), regs, env, task.as_str()),
            IrInstr::Await { dest, task } => self.await_value(Ghost(c), regs, env, dest.as_str(), task.as_str()),
            IrInstr::Label { name } => {
                self.label(name.as_str());
                Ok(())
            },
            IrInstr::Jump { label } => {
                self.branch(label.as_str(), BranchKind::B);
                Ok(())
            },
            IrInstr::JumpIf { cond, label } => self.jump_if(Ghost(c), regs, env, cond.as_str(), label.as_str()),
            IrInstr::Return { value } => self.ret(Ghost(c), regs, env, frame, value),
            _ => Ok(()),
        }
    }
}

/// The names with a location are the names of the order.
proof fn lemma_locs_of_keys(o: Seq<Seq<char>>)
    ensures
        forall|n: Seq<char>| #[trigger] locs_of(o).contains_key(n) == o.contains(n),
    decreases o.len(),
{
    if o.len() > 0 {
        lemma_locs_of_keys(o.drop_last());
        assert forall|n: Seq<char>| #[trigger] locs_of(o).contains_key(n) == o.contains(n) by {
            assert(locs_of(o.drop_last()).contains_key(n) == o.drop_last().contains(n));
            if o.drop_last().contains(n) {
                let i = choose|i: int| 0 <= i < o.drop_last().len() && o.drop_last()[i] == n;
                assert(o[i] == n);
            }
            if o.contains(n) && n != o.last() {
                let i = choose|i: int| 0 <= i < o.len() && o[i] == n;
                assert(i < o.len() - 1);
                assert(o.drop_last()[i] == n);
            }
            if n == o.last() {
                assert(o[o.len() - 1] == n);
            }
        }
    }
}

/// Adding names never shortens the order.
proof fn lemma_add_names_grow(o: Seq<Seq<char>>, vs: Seq<Seq<char>>)
    ensures
        add_names(o, vs).len() >= o.len(),
    decreases vs.len(),
{
    if vs.len() > 0 {
        lemma_add_names_grow(o, vs.drop_last());
    }
}

/// Adding a prefix of the names gives an order no longer than adding all.
proof fn lemma_add_names_prefix(o: Seq<Seq<char>>, vs: Seq<Seq<char>>, i: int)
    requires
        0 <= i <= vs.len(),
    ensures
        add_names(o, vs.take(i)).len() <= add_names(o, vs).len(),
    decreases vs.len() - i,
{
    if i == vs.len() {
        assert(vs.take(i) =~= vs);
    } else {
        lemma_add_names_prefix(o, vs, i + 1);
        assert(vs.take(i + 1).drop_last() =~= vs.take(i));
    }
}

/// Adding slots never shortens the order.
proof fn lemma_add_slots_grow(o: Seq<Seq<char>>, is: Seq<InstrView>, n: int)
    ensures
        add_slots(o, is, n).len() >= o.len(),
    decreases n,
{
    if n > 0 {
        lemma_add_slots_grow(o, is, n - 1);
    }
}

/// The slots of a prefix of the instructions give an order no longer than all.
proof fn lemma_add_slots_prefix(o: Seq<Seq<char>>, is: Seq<InstrView>, j: int, n: int)
    requires
        0 <= j <= n,
    ensures
        add_slots(o, is, j).len() <= add_slots(o, is, n).len(),
    decreases n - j,
{
    if j < n {
        lemma_add_slots_prefix(o, is, j, n - 1);
    }
}

/// Every slot of the first `n` instructions is in the order.
proof fn lemma_add_slots_contains(o: Seq<Seq<char>>, is: Seq<InstrView>, n: int)
    ensures
        forall|j: int| 0 <= j < n ==> (slot_of(#[trigger] is[j]) matches Some(d) ==> add_slots(o, is, n).contains(d)),
    decreases n,
{
    if n > 0 {
        lemma_add_slots_contains(o, is, n - 1);
        let prev = add_slots(o, is, n - 1);
        let now = add_slots(o, is, n);
        assert forall|v: Seq<char>| prev.contains(v) implies now.contains(v) by {
            let i = choose|i: int| 0 <= i < prev.len() && prev[i] == v;
            if let Some(d) = slot_of(is[n - 1]) {
                if !prev.contains(d) {
                    assert(now[i] == v);
                }
            }
        }
        assert forall|j: int| 0 <= j < n implies (slot_of(#[trigger] is[j]) matches Some(d) ==> add_slots(o, is, n).contains(d)) by {
            if j == n - 1 {
                if let Some(d) = slot_of(is[j]) {
                    if !prev.contains(d) {
                        assert(now[now.len() - 1] == d);
                    }
                }
            }
        }
    }
}

/// After an error, later instructions change nothing.
proof fn lemma_run_err(c: JitCtx, g: GenView, is: Seq<InstrView>, k: int, n: int)
    requires
        0 <= k < n,
        run(c, g, is, k + 1) is Err,
    ensures
        run(c, g, is, n) == run(c, g, is, k + 1),
    decreases n - k,
{
    if k + 1 < n {
        lemma_run_err(c, g, is, k, n - 1);
    }
}

/// Whether `x` is one of `v`.
fn has_text(v: &Vec<String>, x: &str) -> (r: bool)
    ensures
        r == names_view(v@).contains(x@),
{
    let ghost ns = names_view(v@);
    let mut i: usize = 0;
    while i < v.len()
        invariant
            0 <= i <= v.len(),
            ns == names_view(v@),
            forall|j: int| 0 <= j < i ==> ns[j] != x@,
        decreases v.len() - i,
    {
        if same_text(v[i].as_str(), x) {
            assert(ns[i as int] == x@);
            return true;
        }
        i = i + 1;
    }
    false
}

/// Gives `name` a location unless it has one.
fn add_var(regs: &mut RegisterMap, order: &mut Vec<String>, name: &str)
    requires
        old(regs).after_fresh_allocs(old(order)@.len() as nat),
        old(regs).locations() == locs_of(names_view(old(order)@)),
        add_name(names_view(old(order)@), name@).len() <= 0x10000,
    ensures
        names_view(final(order)@) == add_name(names_view(old(order)@), name@),
        final(regs).locations() == locs_of(names_view(final(order)@)),
        final(regs).after_fresh_allocs(final(order)@.len() as nat),
{
    proof { lemma_locs_of_keys(names_view(order@)); }
    match regs.get(name) {
        Some(_) => {},
        None => {
            let ghost k = order@.len();
            let ghost before = *regs;
            let r = regs.alloc_var(name);
            proof {
                match r {
                    Ok(Location::Register(i)) => {
                        if i > k {
                            assert(!before.free_regs()[k as int]);
                        }
                        assert(before.free_regs()[i as int] == (i >= k));
                    },
                    Ok(Location::Stack(o)) => {
                        if k < 8 {
                            assert(!before.free_regs()[k as int]);
                        }
                    },
                    Err(_) => {},
                }
            }
            let ghost ov = names_view(order@);
            proof {
                assert(regs.locations() == locs_of(ov).insert(name@, loc_for(k as int)));
            }
            order.push(name.to_owned());
            assert(names_view(order@) =~= ov.push(name@));
            assert(ov.push(name@).drop_last() =~= ov);
        },
    }
}

/// The slot that gets a location before compiling.
fn slot_of_instr(instr: &IrInstr) -> (r: Option<String>)
    ensures
        opt_view(r) == slot_of(instr@),
{
    match instr {
        IrInstr::BitAnd { .. } | IrInstr::BitOr { .. } | IrInstr::BitXor { .. } | IrInstr::BitNot { .. }
        | IrInstr::Shl { .. } | IrInstr::Shr { .. } => None,
        _ => instr_def(instr),
    }
}

/// The result slot of an instruction.
fn result_of_instr(instr: &IrInstr) -> (r: Option<String>)
    ensures
        opt_view(r) == result_of(instr@),
{
    match instr {
        IrInstr::AllocStruct { .. } | IrInstr::Input { .. } => None,
        _ => instr_def(instr),
    }
}

/// The location of the `k`-th name.
fn loc_for_index(k: usize) -> (r: Location)
    requires
        k <= 0x10000,
    ensures
        r == loc_for(k as int),
{
    if k < 8 {
        Location::Register(k as u8)
    } else {
        let extra = (k - 8) as i32;
        Location::Stack(-16 - 8 * extra)
    }
}

impl Code {
    fn prologue(&mut self, n: usize, preserve: usize, frame: u16)
        requires
            old(self).wf(),
            n <= 0x10000,
        ensures
            final(self).wf(),
            final(self).ws() == old(self).ws() + prologue_words(n as int, preserve, frame),
    {
        self.word(encode_stp_fp_lr());
        self.word(encode_add_imm(Reg::X(29), Reg::SP, 0));
        if frame != 0 {
            self.word(encode_sub_imm(Reg::SP, Reg::SP, frame));
        }
        self.mov64(9, 0);
        let ghost w0 = self.ws();
        let mut i: usize = 0;
        while i < n
            invariant
                self.wf(),
                0 <= i <= n,
                n <= 0x10000,
                self.ws() == w0 + zeroing(i as int, preserve),
            decreases n - i,
        {
            let loc = loc_for_index(i);
            match loc {
                Location::Register(r) => {
                    if r as usize >= preserve {
                        self.store(9, loc);
                    } else {
                        assert(self.ws() + Seq::<u32>::empty() =~= self.ws());
                    }
                },
                Location::Stack(_) => {
                    self.store(9, loc);
                },
            }
            assert(self.ws() =~= w0 + zeroing(i + 1, preserve));
            i = i + 1;
        }
        assert(self.ws() =~= old(self).ws() + prologue_words(n as int, preserve, frame));
    }
}

/// Counts one more mention of `name`.
fn bump_count(counts: &mut NameMap<usize>, name: &String)
    ensures
        final(counts).pairs() == insert_entry(old(counts).pairs(), name@, bump(count_in(old(counts).pairs(), name@))),
{
    let c: usize = match counts.get(name.as_str()) {
        Some(v) => *v,
        None => 0,
    };
    let n = if c < usize::MAX { c + 1 } else { c };
    counts.insert(name.clone(), n);
}

/// The names `instr` mentions.
fn mentions_of(instr: &IrInstr) -> (r: Vec<String>)
    ensures
        names_view(r@) == mentions(instr@),
{
    let uses = instr_uses(instr);
    match instr_def(instr) {
        Some(d) => {
            let mut r: Vec<String> = Vec::new();
            r.push(d);
            let ghost first = names_view(r@);
            let mut i: usize = 0;
            while i < uses.len()
                invariant
                    0 <= i <= uses.len(),
                    names_view(r@) == first + names_view(uses@).take(i as int),
                decreases uses.len() - i,
            {
                let ghost before = names_view(r@);
                r.push(uses[i].clone());
                assert(names_view(r@) =~= before.push(uses@[i as int]@));
                assert(names_view(uses@).take(i + 1) =~= names_view(uses@).take(i as int).push(uses@[i as int]@));
                i = i + 1;
            }
            assert(names_view(uses@).take(uses.len() as int) =~= names_view(uses@));
            r
        },
        None => uses,
    }
}

/// How often each name is mentioned, in order of first mention.
fn count_mentions(instrs: &[IrInstr]) -> (r: NameMap<usize>)
    ensures
        r.pairs() == mention_counts(crate::ir::instrs_view(instrs@), instrs@.len() as int),
{
    let ghost is = crate::ir::instrs_view(instrs@);
    let mut counts: NameMap<usize> = NameMap::new();
    let mut k: usize = 0;
    while k < instrs.len()
        invariant
            0 <= k <= instrs.len(),
            is == crate::ir::instrs_view(instrs@),
            counts.pairs() == mention_counts(is, k as int),
        decreases instrs.len() - k,
    {
        let ms = mentions_of(&instrs[k]);
        let ghost ns = names_view(ms@);
        let ghost start = counts.pairs();
        assert(is[k as int] == instrs@[k as int]@);
        let mut i: usize = 0;
        while i < ms.len()
            invariant
                0 <= i <= ms.len(),
                ns == names_view(ms@),
                counts.pairs() == tally(start, ns.take(i as int)),
            decreases ms.len() - i,
        {
            bump_count(&mut counts, &ms[i]);
            assert(ns.take(i + 1).drop_last() =~= ns.take(i as int));
            assert(ns.take(i + 1).last() == ms@[i as int]@);
            i = i + 1;
        }
        assert(ns.take(ms.len() as int) =~= ns);
        k = k + 1;
    }
    counts
}

/// The best index lies among the entries looked at.
proof fn lemma_best_range(counts: Seq<(Seq<char>, usize)>, picked: Seq<Seq<char>>, n: int)
    ensures
        best(counts, picked, n) matches Some(x) ==> 0 <= x < n,
    decreases n,
{
    if n > 0 {
        lemma_best_range(counts, picked, n - 1);
    }
}

/// The four most mentioned names, earliest first on ties.
fn hot_vars(counts: &NameMap<usize>) -> (r: Vec<String>)
    ensures
        names_view(r@) == pick(counts.pairs(), Seq::empty(), 4),
{
    let ghost p = counts.pairs();
    let mut picked: Vec<String> = Vec::new();
    assert(names_view(picked@) =~= Seq::<Seq<char>>::empty());
    let mut k: usize = 0;
    while k < 4
        invariant
            0 <= k <= 4,
            p == counts.pairs(),
            pick(p, names_view(picked@), (4 - k) as nat) == pick(p, Seq::empty(), 4),
        decreases 4 - k,
    {
        let ghost pv = names_view(picked@);
        let mut b: Option<usize> = None;
        let mut j: usize = 0;
        while j < counts.len()
            invariant
                0 <= j <= p.len(),
                p == counts.pairs(),
                pv == names_view(picked@),
                match b {
                    Some(x) => best(p, pv, j as int) == Some(x as int),
                    None => best(p, pv, j as int) is None,
                },
            decreases p.len() - j,
        {
            proof { lemma_best_range(p, pv, j as int); }
            let name = counts.name_at(j);
            if !has_text(&picked, name.as_str()) {
                b = match b {
                    None => Some(j),
                    Some(x) => {
                        if *counts.value_at(j) > *counts.value_at(x) {
                            Some(j)
                        } else {
                            Some(x)
                        }
                    },
                };
            }
            j = j + 1;
        }
        proof { lemma_best_range(p, pv, p.len() as int); }
        match b {
            None => {
                return picked;
            },
            Some(x) => {
                let ghost before = names_view(picked@);
                picked.push(counts.name_at(x).clone());
                assert(names_view(picked@) =~= before.push(p[x as int].0));
            },
        }
        k = k + 1;
    }
    picked
}

/// The result slot of the last instruction that has one.
fn last_result_of(instrs: &[IrInstr]) -> (r: Option<String>)
    ensures
        opt_view(r) == last_result(crate::ir::instrs_view(instrs@), instrs@.len() as int),
{
    let ghost is = crate::ir::instrs_view(instrs@);
    let mut i: usize = instrs.len();
    while i > 0
        invariant
            0 <= i <= instrs.len(),
            is == crate::ir::instrs_view(instrs@),
            last_result(is, instrs@.len() as int) == last_result(is, i as int),
        decreases i,
    {
        assert(is[i - 1] == instrs@[i - 1]@);
        match result_of_instr(&instrs[i - 1]) {
            Some(v) => {
                return Some(v);
            },
            None => {},
        }
        i = i - 1;
    }
    None
}

impl Gen {
    /// The words after the last instruction.
    fn finish(&mut self, Ghost(c): Ghost<JitCtx>, regs: &RegisterMap, env: &JitEnv, frame: u16, instrs: &[IrInstr])
        requires
            old(self).wf(),
            ctx_ok(c, regs, env),
            c.frame == frame,
        ensures
            final(self).wf(),
            final(self).view() == (GenView {
                words: final_words(c, old(self).view(), crate::ir::instrs_view(instrs@)),
                ..old(self).view()
            }),
    {
        let ghost g0 = self.view();
        let ghost is = crate::ir::instrs_view(instrs@);
        if self.returned {
            return;
        }
        let last = last_result_of(instrs);
        let ghost lv = opt_view(last);
        match &last {
            Some(v) => match regs.get(v.as_str()) {
                Some(l) => {
                    self.code.load(0, l);
                },
                None => {
                    self.code.mov64(0, 1);
                    assert(tagged(0) == 1u64) by (bit_vector);
                },
            },
            None => {
                self.code.mov64(0, 1);
                assert(tagged(0) == 1u64) by (bit_vector);
            },
        }
        let ghost w1 = self.code.ws();
        proof { lemma_emit_offsets(g0, w1.skip(g0.words.len() as int)); assert(g0.words + w1.skip(g0.words.len() as int) =~= w1); }
        let skip: Option<&str> = match &last {
            Some(v) => Some(v.as_str()),
            None => None,
        };
        self.release_all(Ghost(c), regs, env, skip);
        self.code.epilogue(frame);
        proof {
            let fw = final_words(c, g0, is);
            assert(self.code.ws() =~= fw);
            lemma_emit_offsets(g0, fw.skip(g0.words.len() as int));
            assert(g0.words + fw.skip(g0.words.len() as int) =~= fw);
        }
    }
}


/// Gives every name its location: the parameters, the hot names, then the
/// slots of the instructions.
fn assign_locations(params: &Vec<String>, instrs: &[IrInstr]) -> (r: (RegisterMap, Vec<String>))
    requires
        var_order(names_view(params@), crate::ir::instrs_view(instrs@)).len() <= 0x10000,
    ensures
        names_view(r.1@) == var_order(names_view(params@), crate::ir::instrs_view(instrs@)),
        r.0.locations() == locs_of(names_view(r.1@)),
        r.0.after_fresh_allocs(r.1@.len() as nat),
{
    let ghost ps = names_view(params@);
    let ghost is = crate::ir::instrs_view(instrs@);
    let ghost order_final = var_order(ps, is);
    let ghost o1 = add_names(Seq::empty(), ps);
    let ghost o2 = add_names(o1, hot_names(is));
    proof {
        lemma_add_slots_grow(o2, is, is.len() as int);
        lemma_add_names_grow(o1, hot_names(is));
    }
    let counts = count_mentions(instrs);
    let hot = hot_vars(&counts);
    let mut regs = RegisterMap::new();
    let mut order: Vec<String> = Vec::new();
    assert(names_view(order@) =~= Seq::<Seq<char>>::empty());
    let mut i: usize = 0;
    while i < params.len()
        invariant
            0 <= i <= params.len(),
            ps == names_view(params@),
            o1.len() <= order_final.len() <= 0x10000,
            o1 == add_names(Seq::empty(), ps),
            names_view(order@) == add_names(Seq::empty(), ps.take(i as int)),
            regs.locations() == locs_of(names_view(order@)),
            regs.after_fresh_allocs(order@.len() as nat),
        decreases params.len() - i,
    {
        proof {
            assert(ps.take(i + 1).drop_last() =~= ps.take(i as int));
            assert(ps.take(i + 1).last() == params@[i as int]@);
            lemma_add_names_prefix(Seq::empty(), ps, i + 1);
        }
        add_var(&mut regs, &mut order, params[i].as_str());
        i = i + 1;
    }
    assert(ps.take(params.len() as int) =~= ps);
    let ghost hv = names_view(hot@);
    let mut i: usize = 0;
    while i < hot.len()
        invariant
            0 <= i <= hot.len(),
            hv == names_view(hot@),
            hv == hot_names(is),
            o2.len() <= order_final.len() <= 0x10000,
            o2 == add_names(o1, hv),
            names_view(order@) == add_names(o1, hv.take(i as int)),
            regs.locations() == locs_of(names_view(order@)),
            regs.after_fresh_allocs(order@.len() as nat),
        decreases hot.len() - i,
    {
        proof {
            assert(hv.take(i + 1).drop_last() =~= hv.take(i as int));
            assert(hv.take(i + 1).last() == hot@[i as int]@);
            lemma_add_names_prefix(o1, hv, i + 1);
        }
        add_var(&mut regs, &mut order, hot[i].as_str());
        i = i + 1;
    }
    assert(hv.take(hot.len() as int) =~= hv);
    let mut k: usize = 0;
    while k < instrs.len()
        invariant
            0 <= k <= instrs.len(),
            is == crate::ir::instrs_view(instrs@),
            order_final == add_slots(o2, is, is.len() as int),
            order_final.len() <= 0x10000,
            names_view(order@) == add_slots(o2, is, k as int),
            regs.locations() == locs_of(names_view(order@)),
            regs.after_fresh_allocs(order@.len() as nat),
        decreases instrs.len() - k,
    {
        assert(is[k as int] == instrs@[k as int]@);
        proof { lemma_add_slots_prefix(o2, is, k + 1, is.len() as int); }
        match slot_of_instr(&instrs[k]) {
            Some(d) => {
                add_var(&mut regs, &mut order, d.as_str());
            },
            None => {},
        }
        k = k + 1;
    }
    (regs, order)
}


/// The error of the parameter list, if any.
fn check_params(params: &Vec<String>) -> (r: Option<String>)
    ensures
        opt_view(r) == param_error(names_view(params@), params@.len() as int),
        r is None ==> params@.len() <= 8,
{
    let ghost ps = names_view(params@);
    let mut i: usize = 0;
    while i < params.len()
        invariant
            0 <= i <= params.len(),
            ps == names_view(params@),
            param_error(ps, i as int) is None,
            i <= 8,
        decreases params.len() - i,
    {
        if i >= 8 {
            proof { lemma_param_error_prefix(ps, i + 1, params.len() as int); }
            return Some("More than 8 parameters not supported yet".to_string());
        }
        let mut j: usize = 0;
        while j < i
            invariant
                0 <= j <= i,
                i < params.len(),
                ps == names_view(params@),
                index_in(ps, ps[i as int], j as int) is None,
                i < 8,
                param_error(ps, i as int) is None,
            decreases i - j,
        {
            if same_text(params[j].as_str(), params[i].as_str()) {
                proof {
                    assert(ps[j as int] == ps[i as int]);
                    assert(index_in(ps, ps[i as int], j as int + 1) == Some(j as int));
                    lemma_index_in_prefix(ps, ps[i as int], j as int + 1, i as int);
                }
                let m = concat(concat(concat("Parameter ", params[i].as_str()).as_str(), " allocated to wrong register ").as_str(), u64_to_text(j as u64).as_str());
                proof {
                    assert(ps[i as int] == params@[i as int]@);
                    assert(index_in(ps, ps[i as int], i as int) == Some(j as int));
                    assert(m@ == "Parameter "@ + ps[i as int] + " allocated to wrong register "@ + crate::text::decimal(j as nat));
                    assert(param_error(ps, i + 1) == Some(m@));
                    lemma_param_error_prefix(ps, i + 1, params.len() as int);
                }
                return Some(m);
            }
            j = j + 1;
        }
        i = i + 1;
    }
    None
}

/// Once the index is found in a prefix, longer prefixes find the same one.
proof fn lemma_index_in_prefix(ps: Seq<Seq<char>>, v: Seq<char>, k: int, n: int)
    requires
        k <= n,
        index_in(ps, v, k) is Some,
    ensures
        index_in(ps, v, n) == index_in(ps, v, k),
    decreases n - k,
{
    if k < n {
        lemma_index_in_prefix(ps, v, k, n - 1);
    }
}

/// Once the parameter error is found in a prefix, longer prefixes give the same.
proof fn lemma_param_error_prefix(ps: Seq<Seq<char>>, k: int, n: int)
    requires
        k <= n,
        param_error(ps, k) is Some,
    ensures
        param_error(ps, n) == param_error(ps, k),
    decreases n - k,
{
    if k < n {
        lemma_param_error_prefix(ps, k, n - 1);
    }
}

/// Compiles `instrs`, the body of a function with the parameters `params`
/// (at most eight distinct names, arriving in `x0`, `x1`, ...; the first
/// `preserve_arg_regs` registers are not zeroed), to machine code: the
/// prologue, the code of each instruction, the epilogue unless the code
/// ends in a return, with every branch patched. It fails with the error of
/// the first instruction that cannot be compiled, or with `Undefined label:
/// <name>` for the first branch to a label that is not defined.
#[verifier::rlimit(80)]
pub fn compile(params: &Vec<String>, instrs: &[IrInstr], preserve_arg_regs: usize, env: &JitEnv) -> (r: Result<Vec<u8>, String>)
    requires
        jit_fits(names_view(params@), crate::ir::instrs_view(instrs@), env),
    ensures
        match jit_code(names_view(params@), crate::ir::instrs_view(instrs@), preserve_arg_regs, env) {
            Ok(code) => r matches Ok(v) && v@ == code,
            Err(e) => r matches Err(m) && m@ == e,
        },
        r matches Ok(v) ==> v@.len() % 4 == 0,
{
    let ghost ps = names_view(params@);
    let ghost is = crate::ir::instrs_view(instrs@);
    match check_params(params) {
        Some(m) => return Err(m),
        None => {},
    }
    let ghost order_final = var_order(ps, is);
    let (regs, order) = assign_locations(params, instrs);
    let ghost c = jit_ctx(ps, is, env);
    proof {
        lemma_add_slots_contains(add_names(add_names(Seq::empty(), ps), hot_names(is)), is, is.len() as int);
        lemma_locs_of_keys(order_final);
    }
    let frame = regs.stack_frame_bytes();
    assert(c.frame == frame);
    let mut labels = LabelManager::new();
    labels.define_label("__fn_entry", 0);
    let mut code = Code::new();
    code.prologue(order.len(), preserve_arg_regs, frame);
    let mut gen = Gen { code, assigned: Vec::new(), labels, returned: false };
    let ghost s0 = start_state(ps, is, preserve_arg_regs, env);
    proof {
        assert(names_view(gen.assigned@) =~= Seq::<Seq<char>>::empty());
        assert(gen.view().words =~= s0.words);
        assert(gen.view().pending =~= s0.pending);
        assert(gen.view() == s0);
    }
    match run_instrs(&mut gen, Ghost(c), &regs, env, frame, instrs, Ghost(s0)) {
        Err(m) => return Err(m),
        Ok(()) => {},
    }
    let ghost g = gen.view();
    gen.finish(Ghost(c), &regs, env, frame, instrs);
    proof {
        assert(run(jit_ctx(ps, is, env), start_state(ps, is, preserve_arg_regs, env), is, is.len() as int) == Ok::<GenView, Seq<char>>(g));
    }
    let r = link(gen, Ghost(c), Ghost(g), Ghost(is));
    proof {
        let n = final_words(c, g, is).len();
        assert((4 * n) % 4 == 0) by (nonlinear_arith);
    }
    r
}

/// Compiles the instructions in order from state `s0`.
fn run_instrs(gen: &mut Gen, Ghost(c): Ghost<JitCtx>, regs: &RegisterMap, env: &JitEnv, frame: u16, instrs: &[IrInstr], Ghost(s0): Ghost<GenView>) -> (r: Result<(), String>)
    requires
        old(gen).wf(),
        old(gen).view() == s0,
        ctx_ok(c, regs, env),
        c.frame == frame,
        env.strings@.len() == instrs@.len(),
        env.ints@.len() == instrs@.len(),
        forall|j: int| 0 <= j < instrs@.len() ==> (slot_of(#[trigger] crate::ir::instrs_view(instrs@)[j]) matches Some(d) ==> c.locs.contains_key(d)),
    ensures
        match run(c, s0, crate::ir::instrs_view(instrs@), instrs@.len() as int) {
            Ok(g) => r is Ok && final(gen).wf() && final(gen).view() == g,
            Err(e) => r matches Err(m) && m@ == e,
        },
{
    let ghost is = crate::ir::instrs_view(instrs@);
    let mut k: usize = 0;
    while k < instrs.len()
        invariant
            0 <= k <= instrs.len(),
            is == crate::ir::instrs_view(instrs@),
            gen.wf(),
            ctx_ok(c, regs, env),
            c.frame == frame,
            env.strings@.len() == instrs@.len(),
            env.ints@.len() == instrs@.len(),
            forall|j: int| 0 <= j < is.len() ==> (slot_of(#[trigger] is[j]) matches Some(d) ==> c.locs.contains_key(d)),
            run(c, s0, is, k as int) == Ok::<GenView, Seq<char>>(gen.view()),
        decreases instrs.len() - k,
    {
        assert(is[k as int] == instrs@[k as int]@);
        match gen.instr(Ghost(c), regs, env, frame, &instrs[k], k) {
            Err(m) => {
                proof { lemma_run_err(c, s0, is, k as int, is.len() as int); }
                return Err(m);
            },
            Ok(()) => {},
        }
        k = k + 1;
    }
    Ok(())
}

/// The bytes of the code with every branch patched, or the error for the
/// first branch to an undefined label.
fn link(gen: Gen, Ghost(c): Ghost<JitCtx>, Ghost(g): Ghost<GenView>, Ghost(is): Ghost<Seq<InstrView>>) -> (r: Result<Vec<u8>, String>)
    requires
        gen.wf(),
        gen.view() == (GenView { words: final_words(c, g, is), ..g }),
        final_words(c, g, is).len() <= 0x1000_0000,
    ensures
        ({
            let n = first_undefined(g.labels, g.pending);
            if n < g.pending.len() {
                r matches Err(m) && m@ == "Undefined label: "@ + g.pending[n].1
            } else {
                r matches Ok(v) && v@ == patch_prefix(words_le(final_words(c, g, is)), g.labels, g.pending, g.pending.len() as int)
            }
        }),
        r matches Ok(v) ==> v@.len() == 4 * final_words(c, g, is).len(),
{
    let ghost fw = final_words(c, g, is);
    let Gen { code, assigned: _, labels, returned: _ } = gen;
    let mut bytes = code.into_bytes();
    proof {
        lemma_words_le_len(fw);
    }
    proof {
        crate::branching::lemma_first_undefined_bound(g.labels, g.pending);
        let v = gen.view();
        assert forall|i: int| 0 <= i < first_undefined(labels.label_map(), labels.branches()) implies {
            &&& #[trigger] labels.branches()[i].0 + 4 <= bytes@.len()
            &&& i32::MIN <= crate::branching::rel_bytes(labels.label_map()[labels.branches()[i].1], labels.branches()[i].0) <= i32::MAX
        } by {
            assert(labels.label_map().contains_key(labels.branches()[i].1));
            assert(v.pending[i].0 + 4 <= 4 * v.words.len());
            assert(v.labels[v.pending[i].1] <= 4 * v.words.len());
        }
    }
    let r = labels.patch_branches(&mut bytes);
    proof {
        if r is Ok {
            crate::branching::lemma_patch_prefix_len(words_le(fw), g.labels, g.pending, g.pending.len() as int);
        }
    }
    match r {
        Err(m) => Err(m),
        Ok(()) => Ok(bytes),
    }
}

/// Each operation is compiled as a call of the runtime helper of the same
/// operation (`-` calls the subtraction helper, `<` the less-than one, and
/// so on), with the left operand as the first argument and the right one as
/// the second, its result stored in the destination; `not` calls the
/// negation helper on its operand.
pub proof fn law_operations_call_their_helper(c: JitCtx, g: GenView, d: Seq<char>, l: Seq<char>, r: Seq<char>, k: int)
    ensures
        instr_step(c, g, InstrView::Add { dest: d, left: l, right: r }, k) == binary(c, g, d, c.helpers.add, l, r),
        instr_step(c, g, InstrView::Sub { dest: d, left: l, right: r }, k) == binary(c, g, d, c.helpers.sub, l, r),
        instr_step(c, g, InstrView::Mul { dest: d, left: l, right: r }, k) == binary(c, g, d, c.helpers.mul, l, r),
        instr_step(c, g, InstrView::Div { dest: d, left: l, right: r }, k) == binary(c, g, d, c.helpers.div, l, r),
        instr_step(c, g, InstrView::Eq { dest: d, left: l, right: r }, k) == binary(c, g, d, c.helpers.eq, l, r),
        instr_step(c, g, InstrView::Ne { dest: d, left: l, right: r }, k) == binary(c, g, d, c.helpers.ne, l, r),
        instr_step(c, g, InstrView::Lt { dest: d, left: l, right: r }, k) == binary(c, g, d, c.helpers.lt, l, r),
        instr_step(c, g, InstrView::Gt { dest: d, left: l, right: r }, k) == binary(c, g, d, c.helpers.gt, l, r),
        instr_step(c, g, InstrView::LogicAnd { dest: d, left: l, right: r }, k) == binary(c, g, d, c.helpers.and, l, r),
        instr_step(c, g, InstrView::LogicOr { dest: d, left: l, right: r }, k) == binary(c, g, d, c.helpers.or, l, r),
        instr_step(c, g, InstrView::FAdd { dest: d, left: l, right: r }, k) == binary(c, g, d, c.helpers.float_add, l, r),
        instr_step(c, g, InstrView::FSub { dest: d, left: l, right: r }, k) == binary(c, g, d, c.helpers.float_sub, l, r),
        instr_step(c, g, InstrView::FMul { dest: d, left: l, right: r }, k) == binary(c, g, d, c.helpers.float_mul, l, r),
        instr_step(c, g, InstrView::FDiv { dest: d, left: l, right: r }, k) == binary(c, g, d, c.helpers.float_div, l, r),
        instr_step(c, g, InstrView::GetIndex { dest: d, src: l, index: r }, k) == binary(c, g, d, c.helpers.index_get, l, r),
        instr_step(c, g, InstrView::LogicNot { dest: d, src: l }, k) == unary(c, g, d, c.helpers.not, l),
{
    reveal(instr_step);
}

/// A register move is `ADD Xd, Xs, #0`: the destination in bits 0..5, the
/// source in bits 5..10, a zero immediate and the 64-bit `ADD` opcode.
pub proof fn law_move_word(d: u8, s: u8)
    requires
        d < 32,
        s < 32,
    ensures
        mv(d, s) & 0x1Fu32 == d as u32,
        (mv(d, s) >> 5u32) & 0x1Fu32 == s as u32,
        mv(d, s) & 0xFFFFFC00u32 == 0x91000000u32,
{
    assert(d < 32 && s < 32 ==> {
        let w = 0x91000000u32 | ((0u16 as u32) << 10u32) | ((s as u32) << 5u32) | (d as u32);
        &&& w & 0x1Fu32 == d as u32
        &&& (w >> 5u32) & 0x1Fu32 == s as u32
        &&& w & 0xFFFFFC00u32 == 0x91000000u32
    }) by (bit_vector);
}

} // verus!
