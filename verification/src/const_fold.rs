//! Constant folding of the IR, one instruction at a time: which slots hold
//! known constants, what an instruction becomes when its operands are
//! known, and when the table of constants is forgotten. What a number
//! operation computes (doubles) is not decided here: the caller computes it
//! from the operands that `number_operands` hands out and passes it in.

use vstd::prelude::*;
use crate::name_map::NameMap;
use crate::ir::{IrInstr, IrValue, InstrView, ConstView};
use crate::optimizer::{OptimizationStats, def_of};
use crate::text::{concat, same_text};

verus! {

/// The two number operands of `left` and `right`, when both are known numbers.
pub open spec fn number_pair(c: Map<Seq<char>, ConstView>, left: Seq<char>, right: Seq<char>) -> Option<(u64, u64)> {
    if c.contains_key(left) && c.contains_key(right) {
        match (c[left], c[right]) {
            (ConstView::Number(a), ConstView::Number(b)) => Some((a, b)),
            _ => None,
        }
    } else {
        None
    }
}

/// The number operand of `src` (with 0 as the second), when it is a known number.
pub open spec fn number_single(c: Map<Seq<char>, ConstView>, src: Seq<char>) -> Option<(u64, u64)> {
    if c.contains_key(src) {
        match c[src] {
            ConstView::Number(a) => Some((a, 0)),
            _ => None,
        }
    } else {
        None
    }
}

/// The number operands whose result the caller must compute for `i`: the
/// two operands of an arithmetic, comparison or bit operation when both are
/// known numbers, the operand of a bit negation, and the condition of a
/// conditional jump when it is a known number.
pub open spec fn number_operands(c: Map<Seq<char>, ConstView>, i: InstrView) -> Option<(u64, u64)> {
    match i {
        InstrView::Add { left, right, .. } | InstrView::Sub { left, right, .. } | InstrView::Mul { left, right, .. }
        | InstrView::Div { left, right, .. } | InstrView::FAdd { left, right, .. } | InstrView::FSub { left, right, .. }
        | InstrView::FMul { left, right, .. } | InstrView::FDiv { left, right, .. } | InstrView::Eq { left, right, .. }
        | InstrView::Ne { left, right, .. } | InstrView::Lt { left, right, .. } | InstrView::Gt { left, right, .. }
        | InstrView::BitAnd { left, right, .. } | InstrView::BitOr { left, right, .. } | InstrView::BitXor { left, right, .. }
        | InstrView::Shl { left, right, .. } | InstrView::Shr { left, right, .. } => number_pair(c, left, right),
        InstrView::BitNot { src, .. } => number_single(c, src),
        InstrView::JumpIf { cond, .. } => number_single(c, cond),
        _ => None,
    }
}

/// Whether `i` is an operation whose result may be folded into a constant.
pub open spec fn is_operation(i: InstrView) -> bool {
    ||| i is Add || i is Sub || i is Mul || i is Div || i is FAdd || i is FSub || i is FMul || i is FDiv
    ||| i is Eq || i is Ne || i is Lt || i is Gt || i is LogicAnd || i is LogicOr || i is LogicNot
    ||| i is BitAnd || i is BitOr || i is BitXor || i is BitNot || i is Shl || i is Shr
}

/// Equality of two known constants that are not both numbers: texts and
/// truth values by value, constants of different kinds never equal.
pub open spec fn same_const(a: ConstView, b: ConstView) -> bool {
    match (a, b) {
        (ConstView::String(x), ConstView::String(y)) => x == y,
        (ConstView::Bool(x), ConstView::Bool(y)) => x == y,
        _ => false,
    }
}

/// The two truth values of `left` and `right`, when both are known truth values.
pub open spec fn bool_pair(c: Map<Seq<char>, ConstView>, left: Seq<char>, right: Seq<char>) -> Option<(bool, bool)> {
    if c.contains_key(left) && c.contains_key(right) {
        match (c[left], c[right]) {
            (ConstView::Bool(a), ConstView::Bool(b)) => Some((a, b)),
            _ => None,
        }
    } else {
        None
    }
}

/// The constant that the operation `i` folds to, if any. `number` is what
/// the caller computed for the number operands, when there are some.
pub open spec fn fold_result(c: Map<Seq<char>, ConstView>, i: InstrView, number: Option<ConstView>) -> Option<ConstView> {
    if number_operands(c, i) is Some {
        number
    } else {
        match i {
            InstrView::Add { left, right, .. } => if c.contains_key(left) && c.contains_key(right) {
                match (c[left], c[right]) {
                    (ConstView::String(a), ConstView::String(b)) => Some(ConstView::String(a + b)),
                    _ => None,
                }
            } else {
                None
            },
            InstrView::Eq { left, right, .. } => if c.contains_key(left) && c.contains_key(right) {
                Some(ConstView::Bool(same_const(c[left], c[right])))
            } else {
                None
            },
            InstrView::Ne { left, right, .. } => if c.contains_key(left) && c.contains_key(right) {
                Some(ConstView::Bool(!same_const(c[left], c[right])))
            } else {
                None
            },
            InstrView::LogicAnd { left, right, .. } => match bool_pair(c, left, right) {
                Some((a, b)) => Some(ConstView::Bool(a && b)),
                None => None,
            },
            InstrView::LogicOr { left, right, .. } => match bool_pair(c, left, right) {
                Some((a, b)) => Some(ConstView::Bool(a || b)),
                None => None,
            },
            InstrView::LogicNot { src, .. } => if c.contains_key(src) {
                match c[src] {
                    ConstView::Bool(b) => Some(ConstView::Bool(!b)),
                    _ => None,
                }
            } else {
                None
            },
            _ => None,
        }
    }
}

/// Whether the condition `cond` is known: a known truth value, or a known
/// number whose truth the caller computed as a truth value.
pub open spec fn known_truth(c: Map<Seq<char>, ConstView>, cond: Seq<char>, number: Option<ConstView>) -> Option<bool> {
    if c.contains_key(cond) {
        match c[cond] {
            ConstView::Bool(b) => Some(b),
            ConstView::Number(_) => match number {
                Some(ConstView::Bool(b)) => Some(b),
                _ => None,
            },
            ConstView::String(_) => None,
        }
    } else {
        None
    }
}

/// The slot an instruction that reads outside values writes, whose constant
/// is then unknown.
pub open spec fn overwritten(i: InstrView) -> Option<Seq<char>> {
    match i {
        InstrView::Input { dest, .. } | InstrView::AllocStruct { dest, .. } | InstrView::AllocList { dest, .. }
        | InstrView::AllocMap { dest } | InstrView::GetIndex { dest, .. } | InstrView::GetMember { dest, .. }
        | InstrView::GetMap { dest, .. } | InstrView::Await { dest, .. } => Some(dest),
        InstrView::Call { dest, .. } => dest,
        _ => None,
    }
}

/// One folding step: the constants known after `i`, what `i` becomes (if
/// anything), and how many (folds, removed instructions, simplified branches)
/// it counts.
///
/// An operation whose result is known becomes a constant load, and its slot
/// holds that constant; otherwise it stays and its slot is unknown. A
/// constant load records its constant. A move onto itself is dropped; a move
/// of a known constant becomes a load of it. A conditional jump on a known
/// condition becomes a jump or nothing. Labels, jumps, returns and
/// conditional jumps forget every constant; instructions that write a slot
/// from outside values forget that slot's.
pub open spec fn fold_step_spec(c: Map<Seq<char>, ConstView>, i: InstrView, number: Option<ConstView>) -> (
    Map<Seq<char>, ConstView>,
    Option<InstrView>,
    (nat, nat, nat),
) {
    let empty = Map::<Seq<char>, ConstView>::empty();
    if is_operation(i) {
        let d = def_of(i).unwrap();
        match fold_result(c, i, number) {
            Some(v) => (c.insert(d, v), Some(InstrView::LoadConst { dest: d, value: v }), (1, 0, 0)),
            None => (c.remove(d), Some(i), (0, 0, 0)),
        }
    } else {
        match i {
            InstrView::Label { .. } | InstrView::Jump { .. } | InstrView::Return { .. } => (empty, Some(i), (0, 0, 0)),
            InstrView::LoadConst { dest, value } => (c.insert(dest, value), Some(i), (0, 0, 0)),
            InstrView::Move { dest, src } => if dest == src {
                (c, None, (0, 1, 0))
            } else if c.contains_key(src) {
                (c.insert(dest, c[src]), Some(InstrView::LoadConst { dest, value: c[src] }), (1, 0, 0))
            } else {
                (c.remove(dest), Some(i), (0, 0, 0))
            },
            InstrView::JumpIf { cond, label } => match known_truth(c, cond, number) {
                Some(true) => (empty, Some(InstrView::Jump { label }), (0, 0, 1)),
                Some(false) => (empty, None, (0, 0, 1)),
                None => (empty, Some(i), (0, 0, 0)),
            },
            _ => match overwritten(i) {
                Some(d) => (c.remove(d), Some(i), (0, 0, 0)),
                None => (c, Some(i), (0, 0, 0)),
            },
        }
    }
}

/// The view of an optional constant.
pub open spec fn opt_const_view(v: Option<IrValue>) -> Option<ConstView> {
    match v {
        Some(x) => Some(x@),
        None => None,
    }
}

/// The view of an optional instruction.
pub open spec fn opt_instr_view(v: Option<IrInstr>) -> Option<InstrView> {
    match v {
        Some(x) => Some(x@),
        None => None,
    }
}

/// A copy of a constant.
pub fn copy_value(v: &IrValue) -> (r: IrValue)
    ensures
        r@ == v@,
{
    match v {
        IrValue::Number(n) => IrValue::Number(*n),
        IrValue::String(s) => IrValue::String(s.clone()),
        IrValue::Bool(b) => IrValue::Bool(*b),
    }
}

/// The constants known to hold in the slots, by slot name.
pub struct ConstTable {
    consts: NameMap<IrValue>,
}

impl ConstTable {
    /// The known constant of each slot.
    pub closed spec fn view(&self) -> Map<Seq<char>, ConstView> {
        self.consts@.map_values(|v: IrValue| v@)
    }

    /// A table that knows no constant.
    pub fn new() -> (t: Self)
        ensures
            t@ == Map::<Seq<char>, ConstView>::empty(),
    {
        let t = ConstTable { consts: NameMap::new() };
        assert(t@ =~= Map::<Seq<char>, ConstView>::empty());
        t
    }

    /// The known constant of `name`, if any.
    pub fn get(&self, name: &str) -> (r: Option<&IrValue>)
        ensures
            match r {
                Some(v) => self@.contains_key(name@) && v@ == self@[name@],
                None => !self@.contains_key(name@),
            },
    {
        self.consts.get(name)
    }

    fn set(&mut self, name: String, v: IrValue)
        ensures
            final(self)@ == old(self)@.insert(name@, v@),
    {
        let ghost k = name@;
        self.consts.insert(name, v);
        assert(self@ =~= old(self)@.insert(k, v@));
    }

    fn forget(&mut self, name: &str)
        ensures
            final(self)@ == old(self)@.remove(name@),
    {
        match self.consts.position(name) {
            Some(i) => {
                self.consts.remove_at(i);
                assert(self@ =~= old(self)@.remove(name@));
            },
            None => {
                assert(self@ =~= old(self)@.remove(name@));
            },
        }
    }

    fn forget_all(&mut self)
        ensures
            final(self)@ == Map::<Seq<char>, ConstView>::empty(),
    {
        self.consts.clear();
        assert(self@ =~= Map::<Seq<char>, ConstView>::empty());
    }

    fn number_pair_of(&self, left: &str, right: &str) -> (r: Option<(u64, u64)>)
        ensures
            r == number_pair(self@, left@, right@),
    {
        match (self.get(left), self.get(right)) {
            (Some(IrValue::Number(a)), Some(IrValue::Number(b))) => Some((*a, *b)),
            _ => None,
        }
    }

    fn number_single_of(&self, src: &str) -> (r: Option<(u64, u64)>)
        ensures
            r == number_single(self@, src@),
    {
        match self.get(src) {
            Some(IrValue::Number(a)) => Some((*a, 0)),
            _ => None,
        }
    }

    /// The number operands whose result the caller must compute before
    /// folding `instr`, if any.
    pub fn number_operands(&self, instr: &IrInstr) -> (r: Option<(u64, u64)>)
        ensures
            r == number_operands(self@, instr@),
    {
        match instr {
            IrInstr::Add { left, right, .. } | IrInstr::Sub { left, right, .. } | IrInstr::Mul { left, right, .. }
            | IrInstr::Div { left, right, .. } | IrInstr::FAdd { left, right, .. } | IrInstr::FSub { left, right, .. }
            | IrInstr::FMul { left, right, .. } | IrInstr::FDiv { left, right, .. } | IrInstr::Eq { left, right, .. }
            | IrInstr::Ne { left, right, .. } | IrInstr::Lt { left, right, .. } | IrInstr::Gt { left, right, .. }
            | IrInstr::BitAnd { left, right, .. } | IrInstr::BitOr { left, right, .. }
            | IrInstr::BitXor { left, right, .. } | IrInstr::Shl { left, right, .. }
            | IrInstr::Shr { left, right, .. } => self.number_pair_of(left.as_str(), right.as_str()),
            IrInstr::BitNot { src, .. } => self.number_single_of(src.as_str()),
            IrInstr::JumpIf { cond, .. } => self.number_single_of(cond.as_str()),
            _ => None,
        }
    }
}

/// Whether two known constants that are not both numbers are equal.
fn same_value(a: &IrValue, b: &IrValue) -> (r: bool)
    ensures
        r == same_const(a@, b@),
{
    match (a, b) {
        (IrValue::String(x), IrValue::String(y)) => same_text(x.as_str(), y.as_str()),
        (IrValue::Bool(x), IrValue::Bool(y)) => *x == *y,
        _ => false,
    }
}

/// Whether `instr` is an operation whose result may be folded.
fn is_operation_instr(instr: &IrInstr) -> (r: bool)
    ensures
        r == is_operation(instr@),
{
    matches!(instr, IrInstr::Add { .. } | IrInstr::Sub { .. } | IrInstr::Mul { .. } | IrInstr::Div { .. }
        | IrInstr::FAdd { .. } | IrInstr::FSub { .. } | IrInstr::FMul { .. } | IrInstr::FDiv { .. }
        | IrInstr::Eq { .. } | IrInstr::Ne { .. } | IrInstr::Lt { .. } | IrInstr::Gt { .. }
        | IrInstr::LogicAnd { .. } | IrInstr::LogicOr { .. } | IrInstr::LogicNot { .. }
        | IrInstr::BitAnd { .. } | IrInstr::BitOr { .. } | IrInstr::BitXor { .. } | IrInstr::BitNot { .. }
        | IrInstr::Shl { .. } | IrInstr::Shr { .. })
}

/// The slot an operation writes.
fn operation_dest(instr: &IrInstr) -> (r: String)
    requires
        is_operation(instr@),
    ensures
        def_of(instr@) == Some(r@),
{
    match instr {
        IrInstr::Add { dest, .. } | IrInstr::Sub { dest, .. } | IrInstr::Mul { dest, .. } | IrInstr::Div { dest, .. }
        | IrInstr::FAdd { dest, .. } | IrInstr::FSub { dest, .. } | IrInstr::FMul { dest, .. }
        | IrInstr::FDiv { dest, .. } | IrInstr::Eq { dest, .. } | IrInstr::Ne { dest, .. } | IrInstr::Lt { dest, .. }
        | IrInstr::Gt { dest, .. } | IrInstr::LogicAnd { dest, .. } | IrInstr::LogicOr { dest, .. }
        | IrInstr::LogicNot { dest, .. } | IrInstr::BitAnd { dest, .. } | IrInstr::BitOr { dest, .. }
        | IrInstr::BitXor { dest, .. } | IrInstr::BitNot { dest, .. } | IrInstr::Shl { dest, .. }
        | IrInstr::Shr { dest, .. } => dest.clone(),
        _ => String::new(),
    }
}

/// The slot that `instr` writes from outside values, if any.
fn overwritten_slot(instr: &IrInstr) -> (r: Option<String>)
    ensures
        match r {
            Some(d) => overwritten(instr@) == Some(d@),
            None => overwritten(instr@) is None,
        },
{
    match instr {
        IrInstr::Input { dest, .. } | IrInstr::AllocStruct { dest, .. } | IrInstr::AllocList { dest, .. }
        | IrInstr::AllocMap { dest } | IrInstr::GetIndex { dest, .. } | IrInstr::GetMember { dest, .. }
        | IrInstr::GetMap { dest, .. } | IrInstr::Await { dest, .. } => Some(dest.clone()),
        IrInstr::Call { dest, .. } => match dest {
            Some(d) => Some(d.clone()),
            None => None,
        },
        _ => None,
    }
}

impl ConstTable {
    /// The constant the operation `instr` folds to, if any, given what the
    /// caller computed for its number operands.
    fn fold_value(&self, instr: &IrInstr, number: &Option<IrValue>) -> (r: Option<IrValue>)
        requires
            is_operation(instr@),
        ensures
            opt_const_view(r) == fold_result(self@, instr@, opt_const_view(*number)),
    {
        if self.number_operands(instr).is_some() {
            return match number {
                Some(v) => Some(copy_value(v)),
                None => None,
            };
        }
        match instr {
            IrInstr::Add { left, right, .. } => match (self.get(left.as_str()), self.get(right.as_str())) {
                (Some(IrValue::String(a)), Some(IrValue::String(b))) => Some(IrValue::String(concat(a.as_str(), b.as_str()))),
                _ => None,
            },
            IrInstr::Eq { left, right, .. } => match (self.get(left.as_str()), self.get(right.as_str())) {
                (Some(a), Some(b)) => Some(IrValue::Bool(same_value(a, b))),
                _ => None,
            },
            IrInstr::Ne { left, right, .. } => match (self.get(left.as_str()), self.get(right.as_str())) {
                (Some(a), Some(b)) => Some(IrValue::Bool(!same_value(a, b))),
                _ => None,
            },
            IrInstr::LogicAnd { left, right, .. } => match (self.get(left.as_str()), self.get(right.as_str())) {
                (Some(IrValue::Bool(a)), Some(IrValue::Bool(b))) => Some(IrValue::Bool(*a && *b)),
                _ => None,
            },
            IrInstr::LogicOr { left, right, .. } => match (self.get(left.as_str()), self.get(right.as_str())) {
                (Some(IrValue::Bool(a)), Some(IrValue::Bool(b))) => Some(IrValue::Bool(*a || *b)),
                _ => None,
            },
            IrInstr::LogicNot { src, .. } => match self.get(src.as_str()) {
                Some(IrValue::Bool(b)) => Some(IrValue::Bool(!*b)),
                _ => None,
            },
            _ => None,
        }
    }

    /// Whether the condition `cond` is known to hold, given what the caller
    /// computed for a number condition.
    fn truth_of(&self, cond: &str, number: &Option<IrValue>) -> (r: Option<bool>)
        ensures
            r == known_truth(self@, cond@, opt_const_view(*number)),
    {
        match self.get(cond) {
            Some(IrValue::Bool(b)) => Some(*b),
            Some(IrValue::Number(_)) => match number {
                Some(IrValue::Bool(b)) => Some(*b),
                _ => None,
            },
            _ => None,
        }
    }

    /// Folds one instruction: updates the known constants and the counts in
    /// `stats`, and gives what the instruction becomes, if anything.
    /// `number` is what the caller computed for `number_operands(instr)`:
    /// the folded constant of a number operation (`None` when it does not
    /// fold, as for a division by zero), or the truth of a number condition.
    pub fn fold_step(&mut self, instr: IrInstr, number: Option<IrValue>, stats: &mut OptimizationStats) -> (r: Option<IrInstr>)
        requires
            old(stats).const_folds < usize::MAX,
            old(stats).removed_dead < usize::MAX,
            old(stats).simplified_branches < usize::MAX,
        ensures
            ({
                let (c, out, counts) = fold_step_spec(old(self)@, instr@, opt_const_view(number));
                &&& final(self)@ == c
                &&& opt_instr_view(r) == out
                &&& final(stats).const_folds == old(stats).const_folds + counts.0
                &&& final(stats).removed_dead == old(stats).removed_dead + counts.1
                &&& final(stats).simplified_branches == old(stats).simplified_branches + counts.2
            }),
    {
        if is_operation_instr(&instr) {
            let value = self.fold_value(&instr, &number);
            let dest = operation_dest(&instr);
            return match value {
                Some(v) => {
                    self.set(dest.clone(), copy_value(&v));
                    stats.const_folds = stats.const_folds + 1;
                    Some(IrInstr::LoadConst { dest, value: v })
                },
                None => {
                    self.forget(dest.as_str());
                    Some(instr)
                },
            };
        }
        match &instr {
            IrInstr::Label { .. } | IrInstr::Jump { .. } | IrInstr::Return { .. } => {
                self.forget_all();
                return Some(instr);
            },
            IrInstr::LoadConst { dest, value } => {
                let d = dest.clone();
                let v = copy_value(value);
                self.set(d, v);
                return Some(instr);
            },
            IrInstr::Move { dest, src } => {
                if same_text(dest.as_str(), src.as_str()) {
                    stats.removed_dead = stats.removed_dead + 1;
                    return None;
                }
                let d = dest.clone();
                let known: Option<IrValue> = match self.get(src.as_str()) {
                    Some(v) => Some(copy_value(v)),
                    None => None,
                };
                return match known {
                    Some(v) => {
                        self.set(d.clone(), copy_value(&v));
                        stats.const_folds = stats.const_folds + 1;
                        Some(IrInstr::LoadConst { dest: d, value: v })
                    },
                    None => {
                        self.forget(d.as_str());
                        Some(instr)
                    },
                };
            },
            IrInstr::JumpIf { cond, label } => {
                let t = self.truth_of(cond.as_str(), &number);
                let l = label.clone();
                self.forget_all();
                return match t {
                    Some(true) => {
                        stats.simplified_branches = stats.simplified_branches + 1;
                        Some(IrInstr::Jump { label: l })
                    },
                    Some(false) => {
                        stats.simplified_branches = stats.simplified_branches + 1;
                        None
                    },
                    None => Some(instr),
                };
            },
            _ => {},
        }
        match overwritten_slot(&instr) {
            Some(d) => self.forget(d.as_str()),
            None => {},
        }
        Some(instr)
    }
}

/// Folding logic on known truth values computes the logic: `a or b` folds
/// to the disjunction, `a and b` to the conjunction, `not a` to the
/// negation, and `==` / `!=` compare the two values; the result slot then
/// holds that constant.
pub proof fn law_logic_folds(c: Map<Seq<char>, ConstView>, d: Seq<char>, l: Seq<char>, r: Seq<char>, a: bool, b: bool, n: Option<ConstView>)
    requires
        c.contains_key(l) && c[l] == ConstView::Bool(a),
        c.contains_key(r) && c[r] == ConstView::Bool(b),
    ensures
        fold_step_spec(c, InstrView::LogicOr { dest: d, left: l, right: r }, n).1 == Some(
            InstrView::LoadConst { dest: d, value: ConstView::Bool(a || b) },
        ),
        fold_step_spec(c, InstrView::LogicOr { dest: d, left: l, right: r }, n).0 == c.insert(d, ConstView::Bool(a || b)),
        fold_step_spec(c, InstrView::LogicAnd { dest: d, left: l, right: r }, n).1 == Some(
            InstrView::LoadConst { dest: d, value: ConstView::Bool(a && b) },
        ),
        fold_step_spec(c, InstrView::LogicAnd { dest: d, left: l, right: r }, n).0 == c.insert(d, ConstView::Bool(a && b)),
        fold_step_spec(c, InstrView::LogicNot { dest: d, src: l }, n).1 == Some(
            InstrView::LoadConst { dest: d, value: ConstView::Bool(!a) },
        ),
        fold_step_spec(c, InstrView::Eq { dest: d, left: l, right: r }, n).1 == Some(
            InstrView::LoadConst { dest: d, value: ConstView::Bool(a == b) },
        ),
        fold_step_spec(c, InstrView::Ne { dest: d, left: l, right: r }, n).1 == Some(
            InstrView::LoadConst { dest: d, value: ConstView::Bool(a != b) },
        ),
{
}

/// Folding on known texts: `+` joins them, the left text first; `==` and
/// `!=` compare them; a text never equals a truth value.
pub proof fn law_text_folds(c: Map<Seq<char>, ConstView>, d: Seq<char>, l: Seq<char>, r: Seq<char>, x: Seq<char>, y: Seq<char>, n: Option<ConstView>)
    requires
        c.contains_key(l) && c[l] == ConstView::String(x),
        c.contains_key(r) && c[r] == ConstView::String(y),
    ensures
        fold_step_spec(c, InstrView::Add { dest: d, left: l, right: r }, n).1 == Some(
            InstrView::LoadConst { dest: d, value: ConstView::String(x + y) },
        ),
        fold_step_spec(c, InstrView::Eq { dest: d, left: l, right: r }, n).1 == Some(
            InstrView::LoadConst { dest: d, value: ConstView::Bool(x == y) },
        ),
        fold_step_spec(c, InstrView::Ne { dest: d, left: l, right: r }, n).1 == Some(
            InstrView::LoadConst { dest: d, value: ConstView::Bool(x != y) },
        ),
        forall|k: Seq<char>| c.contains_key(k) && c[k] is Bool ==> #[trigger] fold_step_spec(
            c,
            InstrView::Eq { dest: d, left: l, right: k },
            n,
        ).1 == Some(InstrView::LoadConst { dest: d, value: ConstView::Bool(false) }),
{
}

/// A move of a known constant becomes a load of that constant into the
/// move's destination; a move onto itself is dropped; a conditional jump on
/// a known truth value becomes the jump when it holds and nothing when it
/// does not.
pub proof fn law_move_and_branch_folds(c: Map<Seq<char>, ConstView>, d: Seq<char>, src: Seq<char>, label: Seq<char>, n: Option<ConstView>)
    ensures
        d != src && c.contains_key(src) ==> fold_step_spec(c, InstrView::Move { dest: d, src }, n).1 == Some(
            InstrView::LoadConst { dest: d, value: c[src] },
        ),
        fold_step_spec(c, InstrView::Move { dest: d, src: d }, n).1 == None::<InstrView>,
        c.contains_key(src) && c[src] == ConstView::Bool(true) ==> fold_step_spec(c, InstrView::JumpIf { cond: src, label }, n).1
            == Some(InstrView::Jump { label }),
        c.contains_key(src) && c[src] == ConstView::Bool(false) ==> fold_step_spec(c, InstrView::JumpIf { cond: src, label }, n).1
            == None::<InstrView>,
{
}

/// The number operands handed to the caller are the left operand's value
/// first and the right one's second, for every arithmetic, comparison and
/// bit operation; the operation then folds to what the caller computed from
/// them, or stays when the caller computed nothing (a division by zero).
pub proof fn law_number_operands_in_order(c: Map<Seq<char>, ConstView>, d: Seq<char>, l: Seq<char>, r: Seq<char>, x: u64, y: u64, v: ConstView)
    requires
        c.contains_key(l) && c[l] == ConstView::Number(x),
        c.contains_key(r) && c[r] == ConstView::Number(y),
    ensures
        number_operands(c, InstrView::Add { dest: d, left: l, right: r }) == Some((x, y)),
        number_operands(c, InstrView::Sub { dest: d, left: l, right: r }) == Some((x, y)),
        number_operands(c, InstrView::Mul { dest: d, left: l, right: r }) == Some((x, y)),
        number_operands(c, InstrView::Div { dest: d, left: l, right: r }) == Some((x, y)),
        number_operands(c, InstrView::Lt { dest: d, left: l, right: r }) == Some((x, y)),
        number_operands(c, InstrView::Gt { dest: d, left: l, right: r }) == Some((x, y)),
        number_operands(c, InstrView::Eq { dest: d, left: l, right: r }) == Some((x, y)),
        number_operands(c, InstrView::Ne { dest: d, left: l, right: r }) == Some((x, y)),
        number_operands(c, InstrView::BitAnd { dest: d, left: l, right: r }) == Some((x, y)),
        number_operands(c, InstrView::BitOr { dest: d, left: l, right: r }) == Some((x, y)),
        number_operands(c, InstrView::BitXor { dest: d, left: l, right: r }) == Some((x, y)),
        number_operands(c, InstrView::Shl { dest: d, left: l, right: r }) == Some((x, y)),
        number_operands(c, InstrView::Shr { dest: d, left: l, right: r }) == Some((x, y)),
        number_operands(c, InstrView::BitNot { dest: d, src: l }) == Some((x, 0u64)),
        fold_step_spec(c, InstrView::Sub { dest: d, left: l, right: r }, Some(v)).1 == Some(InstrView::LoadConst { dest: d, value: v }),
        fold_step_spec(c, InstrView::Div { dest: d, left: l, right: r }, None).1 == Some(InstrView::Div { dest: d, left: l, right: r }),
{
}

} // verus!
