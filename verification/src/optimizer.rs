//! The last pass of the IR optimizer: instructions whose result nothing
//! reads, and which do nothing else, are dropped, in straight-line code.
//! (Constant folding, the pass before it, is decided in `const_fold`; what a
//! number operation folds to is computed with doubles outside this library.)

use vstd::prelude::*;
use crate::ir::{IrInstr, InstrView, instrs_view, names_view, opt_view};
use crate::analyzer::{add_open, drop_open, texts};

verus! {

/// What the optimizer did: constants folded, dead instructions removed,
/// branches on a known condition simplified.
#[derive(Debug, Clone, Copy)]
pub struct OptimizationStats {
    pub const_folds: usize,
    pub removed_dead: usize,
    pub simplified_branches: usize,
}

impl Default for OptimizationStats {
    fn default() -> (s: Self)
        ensures
            s.const_folds == 0,
            s.removed_dead == 0,
            s.simplified_branches == 0,
    {
        OptimizationStats { const_folds: 0, removed_dead: 0, simplified_branches: 0 }
    }
}

/// The slot an instruction writes, if any.
pub open spec fn def_of(i: InstrView) -> Option<Seq<char>> {
    match i {
        InstrView::Add { dest, .. } | InstrView::Sub { dest, .. } | InstrView::Mul { dest, .. }
        | InstrView::Div { dest, .. } | InstrView::FAdd { dest, .. } | InstrView::FSub { dest, .. }
        | InstrView::FMul { dest, .. } | InstrView::FDiv { dest, .. } | InstrView::Eq { dest, .. }
        | InstrView::Ne { dest, .. } | InstrView::Lt { dest, .. } | InstrView::Gt { dest, .. }
        | InstrView::LogicAnd { dest, .. } | InstrView::LogicOr { dest, .. } | InstrView::LogicNot { dest, .. }
        | InstrView::BitAnd { dest, .. } | InstrView::BitOr { dest, .. } | InstrView::BitXor { dest, .. }
        | InstrView::BitNot { dest, .. } | InstrView::Shl { dest, .. } | InstrView::Shr { dest, .. }
        | InstrView::AllocStruct { dest, .. } | InstrView::LoadConst { dest, .. } | InstrView::Move { dest, .. }
        | InstrView::AllocList { dest, .. } | InstrView::GetIndex { dest, .. } | InstrView::AllocMap { dest }
        | InstrView::GetMap { dest, .. } | InstrView::GetMember { dest, .. } | InstrView::Input { dest, .. }
        | InstrView::Await { dest, .. } => Some(dest),
        InstrView::Call { dest: Some(dest), .. } => Some(dest),
        _ => None,
    }
}

/// The slots an instruction reads, in order.
pub open spec fn uses_of(i: InstrView) -> Seq<Seq<char>> {
    match i {
        InstrView::Add { left, right, .. } | InstrView::Sub { left, right, .. } | InstrView::Mul { left, right, .. }
        | InstrView::Div { left, right, .. } | InstrView::FAdd { left, right, .. } | InstrView::FSub { left, right, .. }
        | InstrView::FMul { left, right, .. } | InstrView::FDiv { left, right, .. } | InstrView::Eq { left, right, .. }
        | InstrView::Ne { left, right, .. } | InstrView::Lt { left, right, .. } | InstrView::Gt { left, right, .. }
        | InstrView::LogicAnd { left, right, .. } | InstrView::LogicOr { left, right, .. }
        | InstrView::BitAnd { left, right, .. } | InstrView::BitOr { left, right, .. }
        | InstrView::BitXor { left, right, .. } | InstrView::Shl { left, right, .. }
        | InstrView::Shr { left, right, .. } => seq![left, right],
        InstrView::LogicNot { src, .. } | InstrView::BitNot { src, .. } => seq![src],
        InstrView::Move { src, .. } => seq![src],
        InstrView::AllocList { items, .. } => items,
        InstrView::GetIndex { src, index, .. } => seq![src, index],
        InstrView::SetIndex { src, index, value } => seq![src, index, value],
        InstrView::SetMap { map, key, value } => seq![map, key, value],
        InstrView::GetMap { map, key, .. } => seq![map, key],
        InstrView::SetMember { obj, value, .. } => seq![obj, value],
        InstrView::GetMember { obj, .. } => seq![obj],
        InstrView::Print { src } | InstrView::PrintNum { src } => seq![src],
        InstrView::Input { prompt, .. } => seq![prompt],
        InstrView::Call { args, .. } => args,
        InstrView::Return { value: Some(v) } => seq![v],
        InstrView::JumpIf { cond, .. } => seq![cond],
        InstrView::CloseFile { handle } => seq![handle],
        InstrView::Spawn { task } => seq![task],
        InstrView::Await { task, .. } => seq![task],
        InstrView::PreScan { target } => seq![target],
        _ => seq![],
    }
}

/// Whether an instruction does something besides writing its slot.
pub open spec fn has_side_effect(i: InstrView) -> bool {
    match i {
        InstrView::Print { .. } | InstrView::PrintNum { .. } | InstrView::Input { .. } | InstrView::SetIndex { .. }
        | InstrView::SetMap { .. } | InstrView::SetMember { .. } | InstrView::Call { .. } | InstrView::Return { .. }
        | InstrView::Jump { .. } | InstrView::JumpIf { .. } | InstrView::Label { .. } | InstrView::AllocFile { .. }
        | InstrView::CloseFile { .. } | InstrView::Spawn { .. } | InstrView::Await { .. } | InstrView::LinkFile { .. }
        | InstrView::Hardwire { .. } | InstrView::PreScan { .. } => true,
        _ => false,
    }
}

/// Whether the code has a jump or a label.
pub open spec fn has_control_flow(is: Seq<InstrView>) -> bool {
    exists|k: int| 0 <= k < is.len() && (is[k] is Jump || is[k] is JumpIf || is[k] is Label)
}

/// `live` with every slot of `us` added.
pub open spec fn add_all(live: Seq<Seq<char>>, us: Seq<Seq<char>>) -> Seq<Seq<char>>
    decreases us.len(),
{
    if us.len() == 0 {
        live
    } else {
        add_open(add_all(live, us.drop_last()), us.last())
    }
}

/// Dead-code removal over `is`, walking back from its end with the slots
/// read later in `live`: an instruction is kept when it writes no slot, when
/// a later instruction reads its slot, or when it does something else too.
/// The kept instructions in order, and how many were dropped.
pub open spec fn sweep_back(is: Seq<InstrView>, live: Seq<Seq<char>>) -> (Seq<InstrView>, nat)
    decreases is.len(),
{
    if is.len() == 0 {
        (seq![], 0)
    } else {
        let i = is.last();
        let keep = match def_of(i) {
            Some(d) => live.contains(d) || has_side_effect(i),
            None => true,
        };
        let after_def = match def_of(i) {
            Some(d) => drop_open(live, d),
            None => live,
        };
        let (kept, dropped) = sweep_back(is.drop_last(), add_all(after_def, uses_of(i)));
        if keep {
            (kept.push(i), dropped)
        } else {
            (kept, dropped + 1)
        }
    }
}

pub(crate) fn instr_def(instr: &IrInstr) -> (r: Option<String>)
    ensures
        opt_view(r) == def_of(instr@),
{
    match instr {
        IrInstr::Add { dest, .. } | IrInstr::Sub { dest, .. } | IrInstr::Mul { dest, .. } | IrInstr::Div { dest, .. }
        | IrInstr::FAdd { dest, .. } | IrInstr::FSub { dest, .. } | IrInstr::FMul { dest, .. }
        | IrInstr::FDiv { dest, .. } | IrInstr::Eq { dest, .. } | IrInstr::Ne { dest, .. } | IrInstr::Lt { dest, .. }
        | IrInstr::Gt { dest, .. } | IrInstr::LogicAnd { dest, .. } | IrInstr::LogicOr { dest, .. }
        | IrInstr::LogicNot { dest, .. } | IrInstr::BitAnd { dest, .. } | IrInstr::BitOr { dest, .. }
        | IrInstr::BitXor { dest, .. } | IrInstr::BitNot { dest, .. } | IrInstr::Shl { dest, .. }
        | IrInstr::Shr { dest, .. } | IrInstr::AllocStruct { dest, .. } | IrInstr::LoadConst { dest, .. }
        | IrInstr::Move { dest, .. } | IrInstr::AllocList { dest, .. } | IrInstr::GetIndex { dest, .. }
        | IrInstr::AllocMap { dest } | IrInstr::GetMap { dest, .. } | IrInstr::GetMember { dest, .. }
        | IrInstr::Input { dest, .. } | IrInstr::Await { dest, .. } => Some(dest.clone()),
        IrInstr::Call { dest: Some(dest), .. } => Some(dest.clone()),
        _ => None,
    }
}

fn copy_names(v: &Vec<String>) -> (r: Vec<String>)
    ensures
        names_view(r@) == names_view(v@),
{
    let mut r: Vec<String> = Vec::new();
    let mut i: usize = 0;
    while i < v.len()
        invariant
            0 <= i <= v@.len(),
            names_view(r@) == names_view(v@).take(i as int),
        decreases v@.len() - i,
    {
        let s = v[i].clone();
        let ghost before = r@;
        r.push(s);
        assert(r@ == before.push(s));
        assert(names_view(r@) =~= names_view(before).push(s@));
        assert(names_view(r@) =~= names_view(v@).take(i + 1));
        i = i + 1;
    }
    assert(names_view(v@).take(v@.len() as int) =~= names_view(v@));
    r
}

pub(crate) fn instr_uses(instr: &IrInstr) -> (r: Vec<String>)
    ensures
        names_view(r@) == uses_of(instr@),
{
    let r = match instr {
        IrInstr::Add { left, right, .. } | IrInstr::Sub { left, right, .. } | IrInstr::Mul { left, right, .. }
        | IrInstr::Div { left, right, .. } | IrInstr::FAdd { left, right, .. } | IrInstr::FSub { left, right, .. }
        | IrInstr::FMul { left, right, .. } | IrInstr::FDiv { left, right, .. } | IrInstr::Eq { left, right, .. }
        | IrInstr::Ne { left, right, .. } | IrInstr::Lt { left, right, .. } | IrInstr::Gt { left, right, .. }
        | IrInstr::LogicAnd { left, right, .. } | IrInstr::LogicOr { left, right, .. }
        | IrInstr::BitAnd { left, right, .. } | IrInstr::BitOr { left, right, .. }
        | IrInstr::BitXor { left, right, .. } | IrInstr::Shl { left, right, .. }
        | IrInstr::Shr { left, right, .. } => vec![left.clone(), right.clone()],
        IrInstr::LogicNot { src, .. } | IrInstr::BitNot { src, .. } => vec![src.clone()],
        IrInstr::Move { src, .. } => vec![src.clone()],
        IrInstr::AllocList { items, .. } => copy_names(items),
        IrInstr::GetIndex { src, index, .. } => vec![src.clone(), index.clone()],
        IrInstr::SetIndex { src, index, value } => vec![src.clone(), index.clone(), value.clone()],
        IrInstr::SetMap { map, key, value } => vec![map.clone(), key.clone(), value.clone()],
        IrInstr::GetMap { map, key, .. } => vec![map.clone(), key.clone()],
        IrInstr::SetMember { obj, value, .. } => vec![obj.clone(), value.clone()],
        IrInstr::GetMember { obj, .. } => vec![obj.clone()],
        IrInstr::Print { src } | IrInstr::PrintNum { src } => vec![src.clone()],
        IrInstr::Input { prompt, .. } => vec![prompt.clone()],
        IrInstr::Call { args, .. } => copy_names(args),
        IrInstr::Return { value: Some(v) } => vec![v.clone()],
        IrInstr::JumpIf { cond, .. } => vec![cond.clone()],
        IrInstr::CloseFile { handle } => vec![handle.clone()],
        IrInstr::Spawn { task } => vec![task.clone()],
        IrInstr::Await { task, .. } => vec![task.clone()],
        IrInstr::PreScan { target } => vec![target.clone()],
        _ => Vec::new(),
    };
    assert(names_view(r@) =~= uses_of(instr@));
    r
}

fn instr_side_effect(instr: &IrInstr) -> (r: bool)
    ensures
        r == has_side_effect(instr@),
{
    match instr {
        IrInstr::Print { .. } | IrInstr::PrintNum { .. } | IrInstr::Input { .. } | IrInstr::SetIndex { .. }
        | IrInstr::SetMap { .. } | IrInstr::SetMember { .. } | IrInstr::Call { .. } | IrInstr::Return { .. }
        | IrInstr::Jump { .. } | IrInstr::JumpIf { .. } | IrInstr::Label { .. } | IrInstr::AllocFile { .. }
        | IrInstr::CloseFile { .. } | IrInstr::Spawn { .. } | IrInstr::Await { .. } | IrInstr::LinkFile { .. }
        | IrInstr::Hardwire { .. } | IrInstr::PreScan { .. } => true,
        _ => false,
    }
}

/// Whether `x` is one of `v`.
fn holds_text(v: &Vec<String>, x: &String) -> (r: bool)
    ensures
        r == texts(v@).contains(x@),
{
    let mut i: usize = 0;
    while i < v.len()
        invariant
            0 <= i <= v@.len(),
            forall|j: int| 0 <= j < i ==> v@[j]@ != x@,
        decreases v@.len() - i,
    {
        if crate::text::same_text(v[i].as_str(), x.as_str()) {
            assert(texts(v@)[i as int] == x@);
            return true;
        }
        i = i + 1;
    }
    false
}

fn add_text(v: &mut Vec<String>, x: String)
    ensures
        texts(final(v)@) == add_open(texts(old(v)@), x@),
{
    if !holds_text(v, &x) {
        v.push(x);
        assert(texts(v@) =~= texts(old(v)@).push(x@));
    }
}

fn drop_text(v: &Vec<String>, x: &String) -> (r: Vec<String>)
    ensures
        texts(r@) == drop_open(texts(v@), x@),
{
    let mut r: Vec<String> = Vec::new();
    let mut i: usize = 0;
    assert(texts(r@) =~= Seq::<Seq<char>>::empty());
    while i < v.len()
        invariant
            0 <= i <= v@.len(),
            texts(r@) == drop_open(texts(v@).take(i as int), x@),
        decreases v@.len() - i,
    {
        let ghost t = texts(v@).take(i + 1);
        assert(t.drop_last() =~= texts(v@).take(i as int));
        assert(t.last() == v@[i as int]@);
        if !crate::text::same_text(v[i].as_str(), x.as_str()) {
            let s = v[i].clone();
            let ghost before = texts(r@);
            r.push(s);
            assert(texts(r@) =~= before.push(s@));
        }
        i = i + 1;
    }
    assert(texts(v@).take(v@.len() as int) =~= texts(v@));
    r
}

/// Drops the instructions of `folded` whose slot nothing reads later and
/// which do nothing else, counting them in `stats`. Code with a jump or a
/// label is left as it is: without its control flow graph, a slot read by a
/// loop's next round would look dead.
pub fn eliminate_dead_code(folded: Vec<IrInstr>, stats: &mut OptimizationStats) -> (r: Vec<IrInstr>)
    requires
        old(stats).removed_dead + folded@.len() <= usize::MAX,
    ensures
        has_control_flow(instrs_view(folded@)) ==> r@ == folded@ && *final(stats) == *old(stats),
        !has_control_flow(instrs_view(folded@)) ==> {
            let (kept, dropped) = sweep_back(instrs_view(folded@), seq![]);
            &&& instrs_view(r@) == kept
            &&& final(stats).removed_dead == old(stats).removed_dead + dropped
            &&& final(stats).const_folds == old(stats).const_folds
            &&& final(stats).simplified_branches == old(stats).simplified_branches
        },
{
    let ghost fv = instrs_view(folded@);
    let mut k: usize = 0;
    while k < folded.len()
        invariant
            0 <= k <= folded@.len(),
            fv == instrs_view(folded@),
            forall|j: int| 0 <= j < k ==> !(fv[j] is Jump || fv[j] is JumpIf || fv[j] is Label),
        decreases folded@.len() - k,
    {
        if matches!(folded[k], IrInstr::Jump { .. } | IrInstr::JumpIf { .. } | IrInstr::Label { .. }) {
            assert(fv[k as int] is Jump || fv[k as int] is JumpIf || fv[k as int] is Label);
            return folded;
        }
        k = k + 1;
    }
    let ghost orig = folded@;
    let mut rest = folded;
    let mut live: Vec<String> = Vec::new();
    let mut out: Vec<IrInstr> = Vec::new();
    let ghost start = stats.removed_dead;
    let ghost mut removed: nat = 0;
    assert(texts(live@) =~= Seq::<Seq<char>>::empty());
    assert(fv.take(fv.len() as int) =~= fv);
    assert(instrs_view(out@).reverse() =~= Seq::<InstrView>::empty());
    assert(sweep_back(fv, seq![]).0 + Seq::<InstrView>::empty() =~= sweep_back(fv, seq![]).0);
    while rest.len() > 0
        invariant
            rest@ == orig.take(rest@.len() as int),
            rest@.len() <= orig.len(),
            fv == instrs_view(orig),
            old(stats).removed_dead + orig.len() <= usize::MAX,
            stats.removed_dead == start + removed,
            start == old(stats).removed_dead,
            removed + rest@.len() <= orig.len(),
            stats.const_folds == old(stats).const_folds,
            stats.simplified_branches == old(stats).simplified_branches,
            sweep_back(fv, seq![]).0 == sweep_back(fv.take(rest@.len() as int), texts(live@)).0 + instrs_view(out@).reverse(),
            sweep_back(fv, seq![]).1 == sweep_back(fv.take(rest@.len() as int), texts(live@)).1 + removed,
        decreases rest@.len(),
    {
        let ghost i = rest@.len() as int;
        let ghost pre = fv.take(i - 1);
        assert(fv.take(i).drop_last() =~= pre);
        assert(fv.take(i).last() == fv[i - 1]);
        let instr = rest.pop().unwrap();
        assert(rest@ =~= orig.take(i - 1));
        let ghost iv = instr@;
        assert(iv == fv[i - 1]);
        let def = instr_def(&instr);
        let uses = instr_uses(&instr);
        let side = instr_side_effect(&instr);
        let keep = match &def {
            Some(d) => holds_text(&live, d) || side,
            None => true,
        };
        if let Some(d) = &def {
            live = drop_text(&live, d);
        }
        let ghost l1 = texts(live@);
        let mut u: usize = 0;
        while u < uses.len()
            invariant
                0 <= u <= uses@.len(),
                texts(live@) == add_all(l1, names_view(uses@).take(u as int)),
            decreases uses@.len() - u,
        {
            assert(names_view(uses@).take(u + 1).drop_last() =~= names_view(uses@).take(u as int));
            add_text(&mut live, uses[u].clone());
            u = u + 1;
        }
        assert(names_view(uses@).take(uses@.len() as int) =~= names_view(uses@));
        let ghost rest_sweep = sweep_back(pre, texts(live@));
        if keep {
            let ghost before = instrs_view(out@);
            out.push(instr);
            assert(instrs_view(out@) =~= before.push(iv));
            assert(rest_sweep.0.push(iv) + before.reverse() =~= rest_sweep.0 + before.push(iv).reverse());
        } else {
            stats.removed_dead = stats.removed_dead + 1;
            proof {
                removed = removed + 1;
            }
        }
    }
    assert(fv.take(0) =~= Seq::<InstrView>::empty());
    let ghost outv = instrs_view(out@);
    let mut r: Vec<IrInstr> = Vec::new();
    while out.len() > 0
        invariant
            outv.len() >= out@.len(),
            instrs_view(out@) == outv.take(out@.len() as int),
            instrs_view(r@) == outv.reverse().take((outv.len() - out@.len()) as int),
        decreases out@.len(),
    {
        let ghost n = out@.len() as int;
        let ghost old_out = out@;
        assert(instrs_view(old_out)[n - 1] == old_out[n - 1]@);
        assert(outv.take(n)[n - 1] == outv[n - 1]);
        let x = out.pop().unwrap();
        let ghost before = instrs_view(r@);
        assert(x == old_out[n - 1]);
        assert(x@ == outv[n - 1]);
        r.push(x);
        assert(instrs_view(out@) =~= outv.take(n - 1));
        assert(instrs_view(r@) =~= before.push(x@));
        assert(instrs_view(r@) =~= outv.reverse().take((outv.len() - n + 1) as int));
    }
    assert(outv.reverse().take(outv.len() as int) =~= outv.reverse());
    assert(Seq::<InstrView>::empty() + outv.reverse() =~= outv.reverse());
    r
}

} // verus!
