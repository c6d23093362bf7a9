//! Static checks on lowered programs: code after a function's first jump or
//! return that falls through to nothing, arithmetic on strings, and files
//! still open when a function returns.

use vstd::prelude::*;
use crate::ir::{IrInstr, IrValue, IrProgram, InstrView, ConstView, FunctionView};
use crate::name_map::NameMap;
use crate::text::{concat, decimal, u64_to_text};

verus! {

/// The value kinds the type check follows.
#[derive(Clone, Copy, PartialEq, Eq, Structural)]
pub enum ValueKind {
    Number,
    String,
    Bool,
    Unknown,
}

/// The functions of a program in their order, each with its name.
pub open spec fn functions_in_order(p: &IrProgram) -> Seq<(Seq<char>, FunctionView)> {
    p.functions.pairs().map_values(|e: (Seq<char>, crate::ir::IrFunction)| (e.0, e.1@))
}

/// Where the path from instruction `i`, falling through from one
/// instruction to the next, stops: just past the first jump or return, or
/// at the end.
pub open spec fn reach_from(is: Seq<InstrView>, i: int) -> int
    decreases is.len() - i,
{
    if i < 0 || i >= is.len() {
        is.len() as int
    } else if is[i] is Jump || is[i] is Return {
        i + 1
    } else {
        reach_from(is, i + 1)
    }
}

/// The warning for the unreachable instruction `i` of function `name`.
pub open spec fn dead_code_message(name: Seq<char>, i: nat) -> Seq<char> {
    "Dead code in function '"@ + name + "' at instruction "@ + decimal(i)
}

/// The warnings for one function: one for each instruction past where the
/// path from its first instruction stops.
pub open spec fn dead_code_warnings(name: Seq<char>, is: Seq<InstrView>) -> Seq<Seq<char>> {
    let r = reach_from(is, 0);
    Seq::new((is.len() - r) as nat, |k: int| dead_code_message(name, (r + k) as nat))
}

/// The dead-code warnings of the functions in order.
pub open spec fn all_dead_code(fns: Seq<(Seq<char>, FunctionView)>) -> Seq<Seq<char>>
    decreases fns.len(),
{
    if fns.len() == 0 {
        seq![]
    } else {
        all_dead_code(fns.drop_last()) + dead_code_warnings(fns.last().0, fns.last().1.instructions)
    }
}

/// The kind recorded for `x`, a number when nothing is.
pub open spec fn kind_of(types: Map<Seq<char>, ValueKind>, x: Seq<char>) -> ValueKind {
    if types.contains_key(x) { types[x] } else { ValueKind::Number }
}

/// The error for arithmetic other than `+` on two strings in `name`.
pub open spec fn string_arith_message(name: Seq<char>) -> Seq<char> {
    "Type error in function '"@ + name + "': Cannot perform arithmetic on strings"@
}

/// What one instruction does to the recorded kinds, and the error it
/// raises, if any. Arithmetic on two numbers gives a number; `+` on two
/// strings gives a string, and other arithmetic on two strings is an error
/// that records nothing; anything else gives a number.
pub open spec fn kind_step(name: Seq<char>, types: Map<Seq<char>, ValueKind>, i: InstrView) -> (Map<Seq<char>, ValueKind>, Option<Seq<char>>) {
    match i {
        InstrView::LoadConst { dest, value } => (
            types.insert(dest, match value {
                ConstView::Number(_) => ValueKind::Number,
                ConstView::String(_) => ValueKind::String,
                ConstView::Bool(_) => ValueKind::Bool,
            }),
            None,
        ),
        InstrView::Add { dest, left, right } => arith_step(name, types, dest, left, right, true),
        InstrView::Sub { dest, left, right } => arith_step(name, types, dest, left, right, false),
        InstrView::Mul { dest, left, right } => arith_step(name, types, dest, left, right, false),
        InstrView::Div { dest, left, right } => arith_step(name, types, dest, left, right, false),
        InstrView::Move { dest, src } => (types.insert(dest, kind_of(types, src)), None),
        _ => (types, None),
    }
}

/// The kinds after an arithmetic instruction, and its error if any.
pub open spec fn arith_step(
    name: Seq<char>,
    types: Map<Seq<char>, ValueKind>,
    dest: Seq<char>,
    left: Seq<char>,
    right: Seq<char>,
    is_add: bool,
) -> (Map<Seq<char>, ValueKind>, Option<Seq<char>>) {
    let l = kind_of(types, left);
    let r = kind_of(types, right);
    if l == ValueKind::Number && r == ValueKind::Number {
        (types.insert(dest, ValueKind::Number), None)
    } else if l == ValueKind::String && r == ValueKind::String {
        if is_add {
            (types.insert(dest, ValueKind::String), None)
        } else {
            (types, Some(string_arith_message(name)))
        }
    } else {
        (types.insert(dest, ValueKind::Number), None)
    }
}

/// The type errors of instructions `i..` of function `name`, with the kinds
/// recorded so far.
pub open spec fn kind_errors_from(name: Seq<char>, types: Map<Seq<char>, ValueKind>, is: Seq<InstrView>, i: int) -> Seq<Seq<char>>
    decreases is.len() - i,
{
    if i < 0 || i >= is.len() {
        seq![]
    } else {
        let (t2, e) = kind_step(name, types, is[i]);
        let here = match e {
            Some(m) => seq![m],
            None => seq![],
        };
        here + kind_errors_from(name, t2, is, i + 1)
    }
}

/// The parameters of a function, each recorded as a number.
pub open spec fn params_as_numbers(ps: Seq<Seq<char>>) -> Map<Seq<char>, ValueKind>
    decreases ps.len(),
{
    if ps.len() == 0 {
        Map::empty()
    } else {
        params_as_numbers(ps.drop_last()).insert(ps.last(), ValueKind::Number)
    }
}

/// The type errors of a function.
pub open spec fn kind_errors(name: Seq<char>, f: FunctionView) -> Seq<Seq<char>> {
    kind_errors_from(name, params_as_numbers(f.params), f.instructions, 0)
}

/// The type errors of the functions in order.
pub open spec fn all_kind_errors(fns: Seq<(Seq<char>, FunctionView)>) -> Seq<Seq<char>>
    decreases fns.len(),
{
    if fns.len() == 0 {
        seq![]
    } else {
        all_kind_errors(fns.drop_last()) + kind_errors(fns.last().0, fns.last().1)
    }
}

/// `open` with `x` added, if it is not there yet.
pub open spec fn add_open(open: Seq<Seq<char>>, x: Seq<char>) -> Seq<Seq<char>> {
    if open.contains(x) { open } else { open.push(x) }
}

/// `open` without `x`.
pub open spec fn drop_open(open: Seq<Seq<char>>, x: Seq<char>) -> Seq<Seq<char>>
    decreases open.len(),
{
    if open.len() == 0 {
        seq![]
    } else if open.last() == x {
        drop_open(open.drop_last(), x)
    } else {
        drop_open(open.drop_last(), x).push(open.last())
    }
}

/// The warning for `n` files still open at a return of `name`.
pub open spec fn leak_message(name: Seq<char>, n: nat) -> Seq<char> {
    "Potential resource leak in function '"@ + name + "': "@ + decimal(n) + " file(s) not closed"@
}

/// The leak warnings of instructions `i..` of function `name`, with the
/// handles open so far (each once): a file opened is added, one closed is
/// dropped, and a return with files open gives a warning with their count.
pub open spec fn leaks_from(name: Seq<char>, open: Seq<Seq<char>>, is: Seq<InstrView>, i: int) -> Seq<Seq<char>>
    decreases is.len() - i,
{
    if i < 0 || i >= is.len() {
        seq![]
    } else {
        match is[i] {
            InstrView::AllocFile { dest, .. } => leaks_from(name, add_open(open, dest), is, i + 1),
            InstrView::CloseFile { handle } => leaks_from(name, drop_open(open, handle), is, i + 1),
            InstrView::Return { .. } => if open.len() > 0 {
                seq![leak_message(name, open.len())] + leaks_from(name, open, is, i + 1)
            } else {
                leaks_from(name, open, is, i + 1)
            },
            _ => leaks_from(name, open, is, i + 1),
        }
    }
}

/// The leak warnings of the functions in order.
pub open spec fn all_leaks(fns: Seq<(Seq<char>, FunctionView)>) -> Seq<Seq<char>>
    decreases fns.len(),
{
    if fns.len() == 0 {
        seq![]
    } else {
        all_leaks(fns.drop_last()) + leaks_from(fns.last().0, seq![], fns.last().1.instructions, 0)
    }
}

/// The checker: the errors and warnings it has found so far.
pub struct Analyzer {
    errors: Vec<String>,
    warnings: Vec<String>,
}

/// The character sequences of `v`.
pub open spec fn texts(v: Seq<String>) -> Seq<Seq<char>> {
    v.map_values(|s: String| s@)
}

proof fn lemma_texts_push(v: Seq<String>, s: String)
    ensures
        texts(v.push(s)) == texts(v).push(s@),
{
    assert(texts(v.push(s)) =~= texts(v).push(s@));
}

impl Analyzer {
    /// The errors found so far.
    pub closed spec fn errors(&self) -> Seq<Seq<char>> {
        texts(self.errors@)
    }

    /// The warnings found so far.
    pub closed spec fn warnings(&self) -> Seq<Seq<char>> {
        texts(self.warnings@)
    }

    /// A checker that has found nothing.
    pub fn new() -> (a: Self)
        ensures
            a.errors() == Seq::<Seq<char>>::empty(),
            a.warnings() == Seq::<Seq<char>>::empty(),
    {
        let a = Analyzer { errors: Vec::new(), warnings: Vec::new() };
        assert(texts(a.errors@) =~= Seq::<Seq<char>>::empty());
        assert(texts(a.warnings@) =~= Seq::<Seq<char>>::empty());
        a
    }

    /// The warnings found so far.
    pub fn get_warnings(&self) -> (r: &[String])
        ensures
            texts(r@) == self.warnings(),
    {
        self.warnings.as_slice()
    }

    /// Checks `program`: its dead code and leaks are added to the warnings
    /// and its type errors to the errors, function by function in order; the
    /// result is every error found so far, or nothing when there is none.
    pub fn analyze(&mut self, program: &IrProgram) -> (r: Result<(), Vec<String>>)
        ensures
            final(self).warnings() == old(self).warnings() + all_dead_code(functions_in_order(program))
                + all_leaks(functions_in_order(program)),
            final(self).errors() == old(self).errors() + all_kind_errors(functions_in_order(program)),
            match r {
                Ok(_) => final(self).errors().len() == 0,
                Err(es) => final(self).errors().len() > 0 && texts(es@) == final(self).errors(),
            },
    {
        self.check_dead_code(program);
        self.check_type_consistency(program);
        self.check_resource_leaks(program);
        if self.errors.len() == 0 {
            Ok(())
        } else {
            let mut es: Vec<String> = Vec::new();
            let mut i: usize = 0;
            while i < self.errors.len()
                invariant
                    0 <= i <= self.errors@.len(),
                    texts(es@) == texts(self.errors@).take(i as int),
                decreases self.errors@.len() - i,
            {
                let s = self.errors[i].clone();
                proof {
                    lemma_texts_push(es@, s);
                }
                es.push(s);
                assert(texts(self.errors@).take(i + 1) =~= texts(self.errors@).take(i as int).push(self.errors@[i as int]@));
                i = i + 1;
            }
            assert(texts(self.errors@).take(self.errors@.len() as int) =~= texts(self.errors@));
            Err(es)
        }
    }

    fn check_dead_code(&mut self, program: &IrProgram)
        ensures
            final(self).warnings() == old(self).warnings() + all_dead_code(functions_in_order(program)),
            final(self).errors() == old(self).errors(),
    {
        let n = program.functions.len();
        let ghost fns = functions_in_order(program);
        let ghost start = self.warnings();
        let mut k: usize = 0;
        while k < n
            invariant
                0 <= k <= n,
                n == fns.len(),
                fns == functions_in_order(program),
                self.errors() == old(self).errors(),
                self.warnings() == start + all_dead_code(fns.take(k as int)),
            decreases n - k,
        {
            let name = program.functions.name_at(k);
            let f = program.functions.value_at(k);
            let is = &f.instructions;
            let ghost iv = fns[k as int].1.instructions;
            assert(iv == crate::ir::instrs_view(is@));
            let mut r: usize = 0;
            while r < is.len() && !matches!(is[r], IrInstr::Jump { .. } | IrInstr::Return { .. })
                invariant
                    0 <= r <= is@.len(),
                    iv == crate::ir::instrs_view(is@),
                    reach_from(iv, r as int) == reach_from(iv, 0),
                decreases is@.len() - r,
            {
                r = r + 1;
            }
            let reach = if r < is.len() { r + 1 } else { r };
            assert(reach == reach_from(iv, 0));
            let ghost before = self.warnings();
            let mut j = reach;
            while j < is.len()
                invariant
                    reach <= j <= is@.len(),
                    reach == reach_from(iv, 0),
                    iv.len() == is@.len(),
                    self.errors() == old(self).errors(),
                    self.warnings() == before + dead_code_warnings(name@, iv).take(j - reach),
                decreases is@.len() - j,
            {
                let a = concat("Dead code in function '", name.as_str());
                let b = concat(&a, "' at instruction ");
                let msg = concat(&b, &u64_to_text(j as u64));
                proof {
                    lemma_texts_push(self.warnings@, msg);
                    assert(dead_code_warnings(name@, iv).take(j + 1 - reach) =~= dead_code_warnings(name@, iv).take(j - reach).push(msg@));
                }
                self.warnings.push(msg);
                j = j + 1;
            }
            proof {
                assert(dead_code_warnings(name@, iv).take(is@.len() - reach) =~= dead_code_warnings(name@, iv));
                assert(fns.take(k + 1).drop_last() =~= fns.take(k as int));
                assert(name@ == fns[k as int].0);
            }
            k = k + 1;
        }
        assert(fns.take(n as int) =~= fns);
    }

    fn check_type_consistency(&mut self, program: &IrProgram)
        ensures
            final(self).errors() == old(self).errors() + all_kind_errors(functions_in_order(program)),
            final(self).warnings() == old(self).warnings(),
    {
        let n = program.functions.len();
        let ghost fns = functions_in_order(program);
        let ghost start = self.errors();
        let mut k: usize = 0;
        while k < n
            invariant
                0 <= k <= n,
                n == fns.len(),
                fns == functions_in_order(program),
                self.warnings() == old(self).warnings(),
                self.errors() == start + all_kind_errors(fns.take(k as int)),
            decreases n - k,
        {
            let name = program.functions.name_at(k);
            let f = program.functions.value_at(k);
            let ghost fv = fns[k as int].1;
            assert(fv == f@);
            let mut types: NameMap<ValueKind> = NameMap::new();
            let mut p: usize = 0;
            while p < f.params.len()
                invariant
                    0 <= p <= f.params@.len(),
                    types@ == params_as_numbers(fv.params.take(p as int)),
                    fv == f@,
                decreases f.params@.len() - p,
            {
                assert(fv.params.take(p + 1).drop_last() =~= fv.params.take(p as int));
                types.insert(f.params[p].clone(), ValueKind::Number);
                p = p + 1;
            }
            assert(fv.params.take(fv.params.len() as int) =~= fv.params);
            let ghost before = self.errors();
            let is = &f.instructions;
            let ghost iv = fv.instructions;
            let mut i: usize = 0;
            while i < is.len()
                invariant
                    0 <= i <= is@.len(),
                    iv == crate::ir::instrs_view(is@),
                    self.warnings() == old(self).warnings(),
                    before + kind_errors(name@, fv) == self.errors() + kind_errors_from(name@, types@, iv, i as int),
                    fv.params == f@.params,
                    fv.instructions == iv,
                decreases is@.len() - i,
            {
                let ghost errs = self.errors();
                let ghost t0 = types@;
                match &is[i] {
                    IrInstr::LoadConst { dest, value } => {
                        let kind = match value {
                            IrValue::Number(_) => ValueKind::Number,
                            IrValue::String(_) => ValueKind::String,
                            IrValue::Bool(_) => ValueKind::Bool,
                        };
                        types.insert(dest.clone(), kind);
                    }
                    IrInstr::Add { dest, left, right } => {
                        self.arith(&mut types, name, dest, left, right, true);
                    }
                    IrInstr::Sub { dest, left, right } => {
                        self.arith(&mut types, name, dest, left, right, false);
                    }
                    IrInstr::Mul { dest, left, right } => {
                        self.arith(&mut types, name, dest, left, right, false);
                    }
                    IrInstr::Div { dest, left, right } => {
                        self.arith(&mut types, name, dest, left, right, false);
                    }
                    IrInstr::Move { dest, src } => {
                        let kind = match types.get(src.as_str()) {
                            Some(k) => *k,
                            None => ValueKind::Number,
                        };
                        types.insert(dest.clone(), kind);
                    }
                    _ => {}
                }
                proof {
                    let (t2, e) = kind_step(name@, t0, iv[i as int]);
                    assert(types@ == t2);
                    let here = match e {
                        Some(m) => seq![m],
                        None => Seq::<Seq<char>>::empty(),
                    };
                    assert(self.errors() == errs + here);
                    assert(kind_errors_from(name@, t0, iv, i as int) == here + kind_errors_from(name@, t2, iv, i + 1));
                    assert(errs + (here + kind_errors_from(name@, t2, iv, i + 1)) =~= (errs + here) + kind_errors_from(name@, t2, iv, i + 1));
                }
                i = i + 1;
            }
            proof {
                assert(self.errors() + Seq::<Seq<char>>::empty() =~= self.errors());
                assert(fns.take(k + 1).drop_last() =~= fns.take(k as int));
                assert(name@ == fns[k as int].0);
                assert(start + all_kind_errors(fns.take(k + 1)) =~= (start + all_kind_errors(fns.take(k as int))) + kind_errors(name@, fv));
            }
            k = k + 1;
        }
        assert(fns.take(n as int) =~= fns);
    }

    fn arith(&mut self, types: &mut NameMap<ValueKind>, name: &String, dest: &String, left: &String, right: &String, is_add: bool)
        ensures
            ({
                let (t2, e) = arith_step(name@, old(types)@, dest@, left@, right@, is_add);
                &&& final(types)@ == t2
                &&& final(self).errors() == old(self).errors() + match e {
                    Some(m) => seq![m],
                    None => Seq::<Seq<char>>::empty(),
                }
                &&& final(self).warnings() == old(self).warnings()
            }),
    {
        let l = match types.get(left.as_str()) {
            Some(k) => *k,
            None => ValueKind::Number,
        };
        let r = match types.get(right.as_str()) {
            Some(k) => *k,
            None => ValueKind::Number,
        };
        if matches!(l, ValueKind::Number) && matches!(r, ValueKind::Number) {
            types.insert(dest.clone(), ValueKind::Number);
            assert(self.errors() =~= old(self).errors() + Seq::<Seq<char>>::empty());
        } else if matches!(l, ValueKind::String) && matches!(r, ValueKind::String) {
            if is_add {
                types.insert(dest.clone(), ValueKind::String);
                assert(self.errors() =~= old(self).errors() + Seq::<Seq<char>>::empty());
            } else {
                let a = concat("Type error in function '", name.as_str());
                let msg = concat(&a, "': Cannot perform arithmetic on strings");
                proof {
                    lemma_texts_push(self.errors@, msg);
                }
                self.errors.push(msg);
                assert(self.errors() =~= old(self).errors() + seq![msg@]);
            }
        } else {
            types.insert(dest.clone(), ValueKind::Number);
            assert(self.errors() =~= old(self).errors() + Seq::<Seq<char>>::empty());
        }
    }

    fn check_resource_leaks(&mut self, program: &IrProgram)
        ensures
            final(self).warnings() == old(self).warnings() + all_leaks(functions_in_order(program)),
            final(self).errors() == old(self).errors(),
    {
        let n = program.functions.len();
        let ghost fns = functions_in_order(program);
        let ghost start = self.warnings();
        let mut k: usize = 0;
        while k < n
            invariant
                0 <= k <= n,
                n == fns.len(),
                fns == functions_in_order(program),
                self.errors() == old(self).errors(),
                self.warnings() == start + all_leaks(fns.take(k as int)),
            decreases n - k,
        {
            let name = program.functions.name_at(k);
            let f = program.functions.value_at(k);
            let is = &f.instructions;
            let ghost iv = fns[k as int].1.instructions;
            assert(iv == crate::ir::instrs_view(is@));
            let ghost before = self.warnings();
            let mut open: Vec<String> = Vec::new();
            let mut i: usize = 0;
            assert(texts(open@) =~= Seq::<Seq<char>>::empty());
            while i < is.len()
                invariant
                    0 <= i <= is@.len(),
                    iv == crate::ir::instrs_view(is@),
                    self.errors() == old(self).errors(),
                    before + leaks_from(name@, seq![], iv, 0) == self.warnings() + leaks_from(name@, texts(open@), iv, i as int),
                decreases is@.len() - i,
            {
                let ghost w0 = self.warnings();
                let ghost o0 = texts(open@);
                match &is[i] {
                    IrInstr::AllocFile { dest, .. } => {
                        if !contains_text(&open, dest) {
                            let d = dest.clone();
                            proof {
                                lemma_texts_push(open@, d);
                            }
                            open.push(d);
                        }
                        assert(texts(open@) == add_open(o0, dest@));
                    }
                    IrInstr::CloseFile { handle } => {
                        open = without_text(&open, handle);
                    }
                    IrInstr::Return { .. } => {
                        if open.len() > 0 {
                            let a = concat("Potential resource leak in function '", name.as_str());
                            let b = concat(&a, "': ");
                            let c = concat(&b, &u64_to_text(open.len() as u64));
                            let msg = concat(&c, " file(s) not closed");
                            proof {
                                lemma_texts_push(self.warnings@, msg);
                            }
                            self.warnings.push(msg);
                            assert(w0 + (seq![msg@] + leaks_from(name@, o0, iv, i + 1)) =~= self.warnings() + leaks_from(name@, o0, iv, i + 1));
                        }
                    }
                    _ => {}
                }
                i = i + 1;
            }
            proof {
                assert(self.warnings() + Seq::<Seq<char>>::empty() =~= self.warnings());
                assert(fns.take(k + 1).drop_last() =~= fns.take(k as int));
                assert(name@ == fns[k as int].0);
                assert(start + all_leaks(fns.take(k + 1)) =~= (start + all_leaks(fns.take(k as int))) + leaks_from(name@, seq![], iv, 0));
            }
            k = k + 1;
        }
        assert(fns.take(n as int) =~= fns);
    }
}

/// Whether `x` is one of `v`.
fn contains_text(v: &Vec<String>, x: &String) -> (r: bool)
    ensures
        r == texts(v@).contains(x@),
{
    let mut i: usize = 0;
    while i < v.len()
        invariant
            0 <= i <= v@.len(),
            forall|j: int| 0 <= j < i ==> v@[j]@ != x@,
        decreases v@.len() - i,
    {
        if crate::text::same_text(v[i].as_str(), x.as_str()) {
            assert(texts(v@)[i as int] == x@);
            return true;
        }
        i = i + 1;
    }
    false
}

/// `v` without the entries equal to `x`.
fn without_text(v: &Vec<String>, x: &String) -> (r: Vec<String>)
    ensures
        texts(r@) == drop_open(texts(v@), x@),
{
    let mut r: Vec<String> = Vec::new();
    let mut i: usize = 0;
    assert(texts(r@) =~= Seq::<Seq<char>>::empty());
    while i < v.len()
        invariant
            0 <= i <= v@.len(),
            texts(r@) == drop_open(texts(v@).take(i as int), x@),
        decreases v@.len() - i,
    {
        let ghost t = texts(v@).take(i + 1);
        assert(t.drop_last() =~= texts(v@).take(i as int));
        assert(t.last() == v@[i as int]@);
        if !crate::text::same_text(v[i].as_str(), x.as_str()) {
            let s = v[i].clone();
            proof {
                lemma_texts_push(r@, s);
            }
            r.push(s);
        }
        i = i + 1;
    }
    assert(texts(v@).take(v@.len() as int) =~= texts(v@));
    r
}

/// Stack alignment of calls: nothing in a function moves the stack between
/// its prologue and a call, so every call is aligned.
pub fn validate_stack_alignment(instructions: &[IrInstr]) -> (r: Result<(), String>)
    ensures
        r is Ok,
{
    Ok(())
}

} // verus!
