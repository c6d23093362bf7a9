//! Lowering of the syntax tree to IR: expressions to three-address code over
//! fresh temporaries `t0, t1, ...`, statements to straight-line code with
//! labels `L0, L1, ...` and jumps.

use vstd::prelude::*;
use crate::ast::{Expr, Stmt, FnDef, TopLevel, ImplBlock};
use crate::ir::{IrInstr, IrValue, IrFunction, IrProgram, InstrView, ConstView, FunctionView, ProgramView, instrs_view, names_view, opt_view};
use crate::name_map::NameMap;
use crate::text::{concat, decimal, u64_to_text, lemma_decimal_injective};

verus! {

/// What the builder has inferred about a variable.
#[derive(Debug, Clone)]
pub enum ValueType {
    Number,
    String,
    Bool,
    Struct(String),
    List,
    Mapping,
    Unknown,
}

/// A variable's inferred type with a struct name as characters.
pub enum TypeView {
    Number,
    String,
    Bool,
    Struct(Seq<char>),
    List,
    Mapping,
    Unknown,
}

impl View for ValueType {
    type V = TypeView;

    open spec fn view(&self) -> TypeView {
        match self {
            ValueType::Number => TypeView::Number,
            ValueType::String => TypeView::String,
            ValueType::Bool => TypeView::Bool,
            ValueType::Struct(s) => TypeView::Struct(s@),
            ValueType::List => TypeView::List,
            ValueType::Mapping => TypeView::Mapping,
            ValueType::Unknown => TypeView::Unknown,
        }
    }
}

/// The builder's state as values: the two counters, the inferred types of
/// variables, the declared structs, the enclosing `try` blocks (catch label
/// and error variable, innermost last), the declared traits and the arity of
/// each known function.
pub struct BuildState {
    pub temps: nat,
    pub labels: nat,
    pub var_types: Map<Seq<char>, TypeView>,
    pub structs: Set<Seq<char>>,
    pub try_stack: Seq<(Seq<char>, Seq<char>)>,
    pub traits: Map<Seq<char>, Seq<Seq<char>>>,
    pub known: Map<Seq<char>, usize>,
}

impl BuildState {
    /// The state after taking a fresh temporary.
    pub open spec fn next_temp(self) -> BuildState {
        BuildState { temps: self.temps + 1, ..self }
    }

    /// The state after taking a fresh label.
    pub open spec fn next_label(self) -> BuildState {
        BuildState { labels: self.labels + 1, ..self }
    }

    /// The state after recording the type of `name`.
    pub open spec fn with_type(self, name: Seq<char>, t: TypeView) -> BuildState {
        BuildState { var_types: self.var_types.insert(name, t), ..self }
    }

    /// The state with another `try` block entered.
    pub open spec fn push_try(self, catch_label: Seq<char>, err_var: Seq<char>) -> BuildState {
        BuildState { try_stack: self.try_stack.push((catch_label, err_var)), ..self }
    }

    /// The state with the innermost `try` block left.
    pub open spec fn pop_try(self) -> BuildState {
        BuildState { try_stack: self.try_stack.drop_last(), ..self }
    }

    /// Whether both counters still fit the machine's counters.
    pub open spec fn fits(self) -> bool {
        self.temps <= usize::MAX && self.labels <= usize::MAX
    }
}

/// The name of the temporary numbered `n`.
pub open spec fn temp_name(n: nat) -> Seq<char> {
    "t"@ + decimal(n)
}

/// The name of the label numbered `n`.
pub open spec fn label_name(n: nat) -> Seq<char> {
    "L"@ + decimal(n)
}

/// The bit pattern of the double `0.0`.
pub const ZERO_BITS: u64 = 0;

/// The bit pattern of the double `1.0`.
pub const ONE_BITS: u64 = 0x3ff0_0000_0000_0000;

/// Lowering of an expression from state `st`: the state after it, the
/// instructions it appends, and the slot that holds its value.
#[verifier::opaque]
pub open spec fn lower_expr(st: BuildState, e: Expr) -> (BuildState, Seq<InstrView>, Seq<char>)
    decreases e,
{
    let t = temp_name(st.temps);
    match e {
        Expr::Number(n) => (st.next_temp(), seq![InstrView::LoadConst { dest: t, value: ConstView::Number(n) }], t),
        Expr::Float(n) => (st.next_temp(), seq![InstrView::LoadConst { dest: t, value: ConstView::Number(n) }], t),
        Expr::String(s) => (st.next_temp(), seq![InstrView::LoadConst { dest: t, value: ConstView::String(s@) }], t),
        Expr::Bool(b) => (st.next_temp(), seq![InstrView::LoadConst { dest: t, value: ConstView::Bool(b) }], t),
        Expr::Identifier(name) => {
            if st.structs.contains(name@) {
                (st.next_temp().with_type(t, TypeView::Struct(name@)), seq![InstrView::AllocStruct { dest: t, name: name@ }], t)
            } else if !st.var_types.contains_key(name@) && st.known.contains_key(name@) && st.known[name@] == 0 {
                (st.next_temp(), seq![InstrView::Call { dest: Some(t), func: name@, args: seq![] }], t)
            } else {
                (st, seq![], name@)
            }
        },
        Expr::Add(l, r) => {
            let (s1, i1, a) = lower_expr(st, *l);
            let (s2, i2, b) = lower_expr(s1, *r);
            let d = temp_name(s2.temps);
            (s2.next_temp(), i1 + i2 + seq![InstrView::Add { dest: d, left: a, right: b }], d)
        },
        Expr::Sub(l, r) => {
            let (s1, i1, a) = lower_expr(st, *l);
            let (s2, i2, b) = lower_expr(s1, *r);
            let d = temp_name(s2.temps);
            (s2.next_temp(), i1 + i2 + seq![InstrView::Sub { dest: d, left: a, right: b }], d)
        },
        Expr::Mul(l, r) => {
            let (s1, i1, a) = lower_expr(st, *l);
            let (s2, i2, b) = lower_expr(s1, *r);
            let d = temp_name(s2.temps);
            (s2.next_temp(), i1 + i2 + seq![InstrView::Mul { dest: d, left: a, right: b }], d)
        },
        Expr::Div(l, r) => {
            let (s1, i1, a) = lower_expr(st, *l);
            let (s2, i2, b) = lower_expr(s1, *r);
            let d = temp_name(s2.temps);
            (s2.next_temp(), i1 + i2 + seq![InstrView::Div { dest: d, left: a, right: b }], d)
        },
        Expr::BitAnd(l, r) => {
            let (s1, i1, a) = lower_expr(st, *l);
            let (s2, i2, b) = lower_expr(s1, *r);
            let d = temp_name(s2.temps);
            (s2.next_temp(), i1 + i2 + seq![InstrView::BitAnd { dest: d, left: a, right: b }], d)
        },
        Expr::BitOr(l, r) => {
            let (s1, i1, a) = lower_expr(st, *l);
            let (s2, i2, b) = lower_expr(s1, *r);
            let d = temp_name(s2.temps);
            (s2.next_temp(), i1 + i2 + seq![InstrView::BitOr { dest: d, left: a, right: b }], d)
        },
        Expr::BitXor(l, r) => {
            let (s1, i1, a) = lower_expr(st, *l);
            let (s2, i2, b) = lower_expr(s1, *r);
            let d = temp_name(s2.temps);
            (s2.next_temp(), i1 + i2 + seq![InstrView::BitXor { dest: d, left: a, right: b }], d)
        },
        Expr::Shl(l, r) => {
            let (s1, i1, a) = lower_expr(st, *l);
            let (s2, i2, b) = lower_expr(s1, *r);
            let d = temp_name(s2.temps);
            (s2.next_temp(), i1 + i2 + seq![InstrView::Shl { dest: d, left: a, right: b }], d)
        },
        Expr::Shr(l, r) => {
            let (s1, i1, a) = lower_expr(st, *l);
            let (s2, i2, b) = lower_expr(s1, *r);
            let d = temp_name(s2.temps);
            (s2.next_temp(), i1 + i2 + seq![InstrView::Shr { dest: d, left: a, right: b }], d)
        },
        Expr::Eq(l, r) => {
            let (s1, i1, a) = lower_expr(st, *l);
            let (s2, i2, b) = lower_expr(s1, *r);
            let d = temp_name(s2.temps);
            (s2.next_temp().with_type(d, TypeView::Number), i1 + i2 + seq![InstrView::Eq { dest: d, left: a, right: b }], d)
        },
        Expr::Ne(l, r) => {
            let (s1, i1, a) = lower_expr(st, *l);
            let (s2, i2, b) = lower_expr(s1, *r);
            let d = temp_name(s2.temps);
            (s2.next_temp().with_type(d, TypeView::Number), i1 + i2 + seq![InstrView::Ne { dest: d, left: a, right: b }], d)
        },
        Expr::Lt(l, r) => {
            let (s1, i1, a) = lower_expr(st, *l);
            let (s2, i2, b) = lower_expr(s1, *r);
            let d = temp_name(s2.temps);
            (s2.next_temp().with_type(d, TypeView::Number), i1 + i2 + seq![InstrView::Lt { dest: d, left: a, right: b }], d)
        },
        Expr::Gt(l, r) => {
            let (s1, i1, a) = lower_expr(st, *l);
            let (s2, i2, b) = lower_expr(s1, *r);
            let d = temp_name(s2.temps);
            (s2.next_temp().with_type(d, TypeView::Number), i1 + i2 + seq![InstrView::Gt { dest: d, left: a, right: b }], d)
        },
        Expr::And(l, r) => {
            let (s1, i1, a) = lower_expr(st, *l);
            let (s2, i2, b) = lower_expr(s1, *r);
            let d = temp_name(s2.temps);
            (s2.next_temp().with_type(d, TypeView::Number), i1 + i2 + seq![InstrView::LogicAnd { dest: d, left: a, right: b }], d)
        },
        Expr::Or(l, r) => {
            let (s1, i1, a) = lower_expr(st, *l);
            let (s2, i2, b) = lower_expr(s1, *r);
            let d = temp_name(s2.temps);
            (s2.next_temp().with_type(d, TypeView::Number), i1 + i2 + seq![InstrView::LogicOr { dest: d, left: a, right: b }], d)
        },
        Expr::Le(l, r) => {
            let (s1, i1, a) = lower_expr(st, *l);
            let (s2, i2, b) = lower_expr(s1, *r);
            let g = temp_name(s2.temps);
            let s3 = s2.next_temp().with_type(g, TypeView::Number);
            let d = temp_name(s3.temps);
            (s3.next_temp().with_type(d, TypeView::Number), i1 + i2 + seq![
                InstrView::Gt { dest: g, left: a, right: b },
                InstrView::LogicNot { dest: d, src: g },
            ], d)
        },
        Expr::Ge(l, r) => {
            let (s1, i1, a) = lower_expr(st, *l);
            let (s2, i2, b) = lower_expr(s1, *r);
            let g = temp_name(s2.temps);
            let s3 = s2.next_temp().with_type(g, TypeView::Number);
            let d = temp_name(s3.temps);
            (s3.next_temp().with_type(d, TypeView::Number), i1 + i2 + seq![
                InstrView::Lt { dest: g, left: a, right: b },
                InstrView::LogicNot { dest: d, src: g },
            ], d)
        },
        Expr::Not(x) => {
            let (s1, i1, a) = lower_expr(st, *x);
            let d = temp_name(s1.temps);
            (s1.next_temp().with_type(d, TypeView::Number), i1 + seq![InstrView::LogicNot { dest: d, src: a }], d)
        },
        Expr::BitNot(x) => {
            let (s1, i1, a) = lower_expr(st, *x);
            let d = temp_name(s1.temps);
            (s1.next_temp(), i1 + seq![InstrView::BitNot { dest: d, src: a }], d)
        },
        Expr::Neg(x) => {
            let (s1, i1, a) = lower_expr(st, *x);
            let d = temp_name(s1.temps);
            let z = temp_name(s1.temps + 1);
            (s1.next_temp().next_temp(), i1 + seq![
                InstrView::LoadConst { dest: z, value: ConstView::Number(ZERO_BITS) },
                InstrView::Sub { dest: d, left: z, right: a },
            ], d)
        },
        Expr::Await(x) => {
            let (s1, i1, a) = lower_expr(st, *x);
            let d = temp_name(s1.temps);
            (s1.next_temp(), i1 + seq![InstrView::Await { dest: d, task: a }], d)
        },
        Expr::Ask(x) => {
            let (s1, i1, a) = lower_expr(st, *x);
            let d = temp_name(s1.temps);
            (s1.next_temp().with_type(d, TypeView::String), i1 + seq![InstrView::Input { dest: d, prompt: a }], d)
        },
        Expr::Range(l, r) => {
            let (s1, i1, a) = lower_expr(st, *l);
            let (s2, i2, b) = lower_expr(s1, *r);
            let d = temp_name(s2.temps);
            (s2.next_temp(), i1 + i2 + seq![InstrView::Call { dest: Some(d), func: "range"@, args: seq![a, b] }], d)
        },
        Expr::Index(l, r) => {
            let (s1, i1, a) = lower_expr(st, *l);
            let (s2, i2, b) = lower_expr(s1, *r);
            let d = temp_name(s2.temps);
            (s2.next_temp(), i1 + i2 + seq![InstrView::GetIndex { dest: d, src: a, index: b }], d)
        },
        Expr::Member(x, m) => {
            let (s1, i1, a) = lower_expr(st, *x);
            let d = temp_name(s1.temps);
            (s1.next_temp(), i1 + seq![InstrView::GetMember { dest: d, obj: a, member: m@ }], d)
        },
        Expr::Call(f, args) => {
            let (s1, i1, ts) = lower_exprs(st, args@);
            let d = temp_name(s1.temps);
            (s1.next_temp(), i1 + seq![InstrView::Call { dest: Some(d), func: f@, args: ts }], d)
        },
        Expr::MethodCall(recv, method, args) => {
            let (s1, i1, rv) = lower_expr(st, *recv);
            let resolved = method_target(s1, *recv, method@);
            let (s2, i2, ts) = lower_exprs(s1, args@);
            let d = temp_name(s2.temps);
            (s2.next_temp(), i1 + i2 + seq![InstrView::Call { dest: Some(d), func: resolved, args: seq![rv] + ts }], d)
        },
        Expr::List(items) => {
            let (s1, i1, ts) = lower_exprs(st, items@);
            let d = temp_name(s1.temps);
            (s1.next_temp().with_type(d, TypeView::List), i1 + seq![InstrView::AllocList { dest: d, items: ts }], d)
        },
        Expr::Mapping(entries) => {
            let s1 = st.next_temp().with_type(t, TypeView::Mapping);
            let (s2, i2) = lower_entries(s1, entries@, t);
            (s2, seq![InstrView::AllocMap { dest: t }] + i2, t)
        },
    }
}

/// The function a method call goes to: `<Type>_<method>` when the receiver
/// is a variable known to hold a struct of that type, else the method name.
pub open spec fn method_target(st: BuildState, recv: Expr, method: Seq<char>) -> Seq<char> {
    match recv {
        Expr::Identifier(var) => {
            if st.var_types.contains_key(var@) && st.var_types[var@] is Struct {
                st.var_types[var@]->Struct_0 + "_"@ + method
            } else {
                method
            }
        },
        _ => method,
    }
}

/// Lowering of expressions in order: the state after them, their code, and
/// the slots that hold their values.
pub open spec fn lower_exprs(st: BuildState, es: Seq<Expr>) -> (BuildState, Seq<InstrView>, Seq<Seq<char>>)
    decreases es,
{
    if es.len() == 0 {
        (st, seq![], seq![])
    } else {
        let (s1, i1, ts) = lower_exprs(st, es.drop_last());
        let (s2, i2, t) = lower_expr(s1, es.last());
        (s2, i1 + i2, ts.push(t))
    }
}

/// Lowering of the entries of a map literal into the map in slot `m`: each
/// key, then its value, then the store.
pub open spec fn lower_entries(st: BuildState, es: Seq<(Expr, Expr)>, m: Seq<char>) -> (BuildState, Seq<InstrView>)
    decreases es,
{
    if es.len() == 0 {
        (st, seq![])
    } else {
        let (s1, i1) = lower_entries(st, es.drop_last(), m);
        let (s2, i2, k) = lower_expr(s1, es.last().0);
        let (s3, i3, v) = lower_expr(s2, es.last().1);
        (s3, i1 + i2 + i3 + seq![InstrView::SetMap { map: m, key: k, value: v }])
    }
}

} // verus!

verus! {

/// One step of lowering expressions: only the temporary counter (which never
/// goes down) and the inferred types may change.
pub open spec fn expr_step(a: BuildState, b: BuildState) -> bool {
    &&& a.temps <= b.temps
    &&& a.labels == b.labels
    &&& a.structs == b.structs
    &&& a.try_stack == b.try_stack
    &&& a.traits == b.traits
    &&& a.known == b.known
}

/// Lowering an expression only takes temporaries and records types.
pub proof fn lemma_lower_expr_step(st: BuildState, e: Expr)
    ensures
        expr_step(st, lower_expr(st, e).0),
    decreases e,
{
    reveal(lower_expr);
    match e {
        Expr::Add(l, r) | Expr::Sub(l, r) | Expr::Mul(l, r) | Expr::Div(l, r) | Expr::BitAnd(l, r)
        | Expr::BitOr(l, r) | Expr::BitXor(l, r) | Expr::Shl(l, r) | Expr::Shr(l, r) | Expr::Eq(l, r)
        | Expr::Ne(l, r) | Expr::Lt(l, r) | Expr::Gt(l, r) | Expr::And(l, r) | Expr::Or(l, r)
        | Expr::Le(l, r) | Expr::Ge(l, r) | Expr::Range(l, r) | Expr::Index(l, r) => {
            lemma_lower_expr_step(st, *l);
            lemma_lower_expr_step(lower_expr(st, *l).0, *r);
        },
        Expr::Not(x) | Expr::BitNot(x) | Expr::Neg(x) | Expr::Await(x) | Expr::Ask(x) => {
            lemma_lower_expr_step(st, *x);
        },
        Expr::Member(x, _) => {
            lemma_lower_expr_step(st, *x);
        },
        Expr::Call(_, args) => {
            lemma_lower_exprs_step(st, args@);
        },
        Expr::MethodCall(recv, _, args) => {
            lemma_lower_expr_step(st, *recv);
            lemma_lower_exprs_step(lower_expr(st, *recv).0, args@);
        },
        Expr::List(items) => {
            lemma_lower_exprs_step(st, items@);
        },
        Expr::Mapping(entries) => {
            let t = temp_name(st.temps);
            lemma_lower_entries_step(st.next_temp().with_type(t, TypeView::Mapping), entries@, t);
        },
        _ => {},
    }
}

/// Lowering expressions in order only takes temporaries and records types.
pub proof fn lemma_lower_exprs_step(st: BuildState, es: Seq<Expr>)
    ensures
        expr_step(st, lower_exprs(st, es).0),
    decreases es,
{
    reveal(lower_expr);
    if es.len() > 0 {
        lemma_lower_exprs_step(st, es.drop_last());
        lemma_lower_expr_step(lower_exprs(st, es.drop_last()).0, es.last());
    }
}

/// Lowering the entries of a map literal only takes temporaries and records
/// types.
pub proof fn lemma_lower_entries_step(st: BuildState, es: Seq<(Expr, Expr)>, m: Seq<char>)
    ensures
        expr_step(st, lower_entries(st, es, m).0),
    decreases es,
{
    reveal(lower_expr);
    if es.len() > 0 {
        lemma_lower_entries_step(st, es.drop_last(), m);
        let s1 = lower_entries(st, es.drop_last(), m).0;
        lemma_lower_expr_step(s1, es.last().0);
        lemma_lower_expr_step(lower_expr(s1, es.last().0).0, es.last().1);
    }
}

/// A prefix of a list of expressions lowers to a state on the way to the
/// state of the whole list.
pub proof fn lemma_lower_exprs_prefix(st: BuildState, es: Seq<Expr>, k: int)
    requires
        0 <= k <= es.len(),
    ensures
        expr_step(lower_exprs(st, es.take(k)).0, lower_exprs(st, es).0),
    decreases es.len() - k,
{
    reveal(lower_expr);
    if k == es.len() {
        assert(es.take(k) =~= es);
    } else {
        lemma_lower_exprs_prefix(st, es, k + 1);
        assert(es.take(k + 1).drop_last() =~= es.take(k));
        lemma_lower_expr_step(lower_exprs(st, es.take(k)).0, es[k]);
    }
}

/// A prefix of the entries of a map literal lowers to a state on the way to
/// the state of all of them.
pub proof fn lemma_lower_entries_prefix(st: BuildState, es: Seq<(Expr, Expr)>, m: Seq<char>, k: int)
    requires
        0 <= k <= es.len(),
    ensures
        expr_step(lower_entries(st, es.take(k), m).0, lower_entries(st, es, m).0),
    decreases es.len() - k,
{
    reveal(lower_expr);
    if k == es.len() {
        assert(es.take(k) =~= es);
    } else {
        lemma_lower_entries_prefix(st, es, m, k + 1);
        assert(es.take(k + 1).drop_last() =~= es.take(k));
        let s1 = lower_entries(st, es.take(k), m).0;
        lemma_lower_expr_step(s1, es[k].0);
        lemma_lower_expr_step(lower_expr(s1, es[k].0).0, es[k].1);
    }
}

/// Appends an instruction.
fn emit(instrs: &mut Vec<IrInstr>, i: IrInstr)
    ensures
        instrs_view(final(instrs)@) == instrs_view(old(instrs)@).push(i@),
{
    let ghost v = i@;
    instrs.push(i);
    assert(instrs_view(instrs@) =~= instrs_view(old(instrs)@).push(v));
}

/// Lowers a syntax tree to IR.
#[derive(Debug)]
pub struct IrBuilder {
    temp_counter: usize,
    label_counter: usize,
    var_types: NameMap<ValueType>,
    structs: NameMap<()>,
    try_stack: Vec<(String, String)>,
    trait_methods: NameMap<Vec<String>>,
    known_functions: NameMap<usize>,
}

impl IrBuilder {
    /// The builder's state.
    pub closed spec fn state(&self) -> BuildState {
        BuildState {
            temps: self.temp_counter as nat,
            labels: self.label_counter as nat,
            var_types: self.var_types@.map_values(|t: ValueType| t@),
            structs: self.structs@.dom(),
            try_stack: self.try_stack@.map_values(|p: (String, String)| (p.0@, p.1@)),
            traits: self.trait_methods@.map_values(|v: Vec<String>| names_view(v@)),
            known: self.known_functions@,
        }
    }

    /// A builder with both counters at zero and nothing known.
    pub fn new() -> (b: Self)
        ensures
            b.state() == (BuildState {
                temps: 0,
                labels: 0,
                var_types: Map::empty(),
                structs: Set::empty(),
                try_stack: seq![],
                traits: Map::empty(),
                known: Map::empty(),
            }),
    {
        let b = IrBuilder {
            temp_counter: 0,
            label_counter: 0,
            var_types: NameMap::new(),
            structs: NameMap::new(),
            try_stack: Vec::new(),
            trait_methods: NameMap::new(),
            known_functions: NameMap::new(),
        };
        assert(b.state().var_types =~= Map::<Seq<char>, TypeView>::empty());
        assert(b.state().structs =~= Set::<Seq<char>>::empty());
        assert(b.state().try_stack =~= Seq::<(Seq<char>, Seq<char>)>::empty());
        assert(b.state().traits =~= Map::<Seq<char>, Seq<Seq<char>>>::empty());
        b
    }

    /// A fresh temporary `t<n>`.
    fn fresh_temp(&mut self) -> (t: String)
        requires
            old(self).state().temps < usize::MAX,
        ensures
            final(self).state() == old(self).state().next_temp(),
            t@ == temp_name(old(self).state().temps),
    {
        let n = u64_to_text(self.temp_counter as u64);
        let t = concat("t", n.as_str());
        self.temp_counter = self.temp_counter + 1;
        t
    }

    /// A fresh label `L<n>`.
    fn fresh_label(&mut self) -> (l: String)
        requires
            old(self).state().labels < usize::MAX,
        ensures
            final(self).state() == old(self).state().next_label(),
            l@ == label_name(old(self).state().labels),
    {
        let n = u64_to_text(self.label_counter as u64);
        let l = concat("L", n.as_str());
        self.label_counter = self.label_counter + 1;
        l
    }

    /// Records the inferred type of `name`.
    fn set_type(&mut self, name: String, t: ValueType)
        ensures
            final(self).state() == old(self).state().with_type(name@, t@),
    {
        let ghost k = name@;
        let ghost v = t@;
        self.var_types.insert(name, t);
        assert(self.state().var_types =~= old(self).state().var_types.insert(k, v));
    }
}

} // verus!

verus! {

/// `after` and the code appended between `code_before` and `code_after` are
/// what lowering `e` from `st` gives, and `t` is the slot of its value.
pub open spec fn expr_done(
    st: BuildState,
    e: Expr,
    after: BuildState,
    code_before: Seq<InstrView>,
    code_after: Seq<InstrView>,
    t: Seq<char>,
) -> bool {
    let r = lower_expr(st, e);
    &&& after == r.0
    &&& code_after == code_before + r.1
    &&& t == r.2
}

impl IrBuilder {
    /// Appends the code of `expr` to `instrs` and gives the slot that holds
    /// its value.
    fn build_expr(&mut self, expr: &Expr, instrs: &mut Vec<IrInstr>) -> (t: String)
        requires
            lower_expr(old(self).state(), *expr).0.temps <= usize::MAX,
        ensures
            expr_done(old(self).state(), *expr, final(self).state(), instrs_view(old(instrs)@), instrs_view(final(instrs)@), t@),
        decreases expr, 1nat,
    {
        proof {
            reveal(lower_expr);
        }
        let ghost st = self.state();
        match expr {
            Expr::Number(n) | Expr::Float(n) => {
                let t = self.fresh_temp();
                emit(instrs, IrInstr::LoadConst { dest: t.clone(), value: IrValue::Number(*n) });
                proof {
                    assert(instrs_view(instrs@) =~= instrs_view(old(instrs)@) + lower_expr(st, *expr).1);
                }
                t
            },
            Expr::String(s) => {
                let t = self.fresh_temp();
                emit(instrs, IrInstr::LoadConst { dest: t.clone(), value: IrValue::String(s.clone()) });
                proof {
                    assert(instrs_view(instrs@) =~= instrs_view(old(instrs)@) + lower_expr(st, *expr).1);
                }
                t
            },
            Expr::Bool(b) => {
                let t = self.fresh_temp();
                emit(instrs, IrInstr::LoadConst { dest: t.clone(), value: IrValue::Bool(*b) });
                proof {
                    assert(instrs_view(instrs@) =~= instrs_view(old(instrs)@) + lower_expr(st, *expr).1);
                }
                t
            },
            Expr::Identifier(name) => {
                let calls_known = match self.known_functions.get(name.as_str()) {
                    Some(k) => *k == 0,
                    None => false,
                };
                if self.structs.contains_key(name.as_str()) {
                    let d = self.fresh_temp();
                    emit(instrs, IrInstr::AllocStruct { dest: d.clone(), name: name.clone() });
                    self.set_type(d.clone(), ValueType::Struct(name.clone()));
                proof {
                    assert(instrs_view(instrs@) =~= instrs_view(old(instrs)@) + lower_expr(st, *expr).1);
                }
                    d
                } else if !self.var_types.contains_key(name.as_str()) && calls_known {
                    let d = self.fresh_temp();
                    emit(instrs, IrInstr::Call { dest: Some(d.clone()), func: name.clone(), args: Vec::new() });
                    proof {
                        assert(names_view(Seq::<String>::empty()) =~= Seq::<Seq<char>>::empty());
                        assert(instrs_view(instrs@) =~= instrs_view(old(instrs)@) + lower_expr(st, *expr).1);
                    }
                    d
                } else {
                    assert(instrs_view(instrs@) =~= instrs_view(old(instrs)@) + Seq::<InstrView>::empty());
                    name.clone()
                }
            },
            Expr::Add(..) | Expr::Sub(..) | Expr::Mul(..) | Expr::Div(..) | Expr::BitAnd(..) | Expr::BitOr(..)
            | Expr::BitXor(..) | Expr::Shl(..) | Expr::Shr(..) | Expr::Range(..) | Expr::Index(..) => {
                self.build_binary(expr, instrs)
            },
            Expr::Eq(..) | Expr::Ne(..) | Expr::Lt(..) | Expr::Gt(..) | Expr::And(..) | Expr::Or(..) => {
                self.build_compare(expr, instrs)
            },
            Expr::Le(..) | Expr::Ge(..) => {
                self.build_negated_compare(expr, instrs)
            },
            Expr::Not(..) | Expr::BitNot(..) | Expr::Neg(..) | Expr::Await(..) | Expr::Ask(..)
            | Expr::Member(..) => {
                self.build_unary(expr, instrs)
            },
            Expr::Call(..) | Expr::MethodCall(..) | Expr::List(..) | Expr::Mapping(..) => {
                self.build_compound(expr, instrs)
            },
        }
    }

    /// The arithmetic and bitwise operators, ranges and indexing: both
    /// operands, then one instruction.
    fn build_binary(&mut self, expr: &Expr, instrs: &mut Vec<IrInstr>) -> (t: String)
        requires
            *expr is Add || *expr is Sub || *expr is Mul || *expr is Div || *expr is BitAnd || *expr is BitOr
                || *expr is BitXor || *expr is Shl || *expr is Shr || *expr is Range || *expr is Index,
            lower_expr(old(self).state(), *expr).0.temps <= usize::MAX,
        ensures
            expr_done(old(self).state(), *expr, final(self).state(), instrs_view(old(instrs)@), instrs_view(final(instrs)@), t@),
        decreases expr, 0nat,
    {
        proof {
            reveal(lower_expr);
        }
        let ghost st = self.state();
        match expr {
            Expr::Add(l, r) | Expr::Sub(l, r) | Expr::Mul(l, r) | Expr::Div(l, r) | Expr::BitAnd(l, r)
            | Expr::BitOr(l, r) | Expr::BitXor(l, r) | Expr::Shl(l, r) | Expr::Shr(l, r) | Expr::Range(l, r)
            | Expr::Index(l, r) => {
                proof {
                    lemma_lower_expr_step(lower_expr(st, **l).0, **r);
                }
                let a = self.build_expr(l, instrs);
                let b = self.build_expr(r, instrs);
                let d = self.fresh_temp();
                let i = match expr {
                    Expr::Add(..) => IrInstr::Add { dest: d.clone(), left: a, right: b },
                    Expr::Sub(..) => IrInstr::Sub { dest: d.clone(), left: a, right: b },
                    Expr::Mul(..) => IrInstr::Mul { dest: d.clone(), left: a, right: b },
                    Expr::Div(..) => IrInstr::Div { dest: d.clone(), left: a, right: b },
                    Expr::BitAnd(..) => IrInstr::BitAnd { dest: d.clone(), left: a, right: b },
                    Expr::BitOr(..) => IrInstr::BitOr { dest: d.clone(), left: a, right: b },
                    Expr::BitXor(..) => IrInstr::BitXor { dest: d.clone(), left: a, right: b },
                    Expr::Shl(..) => IrInstr::Shl { dest: d.clone(), left: a, right: b },
                    Expr::Shr(..) => IrInstr::Shr { dest: d.clone(), left: a, right: b },
                    Expr::Range(..) => {
                        let ghost av = a@;
                        let ghost bv = b@;
                        let mut args: Vec<String> = Vec::new();
                        args.push(a);
                        args.push(b);
                        assert(names_view(args@) =~= seq![av, bv]);
                        IrInstr::Call { dest: Some(d.clone()), func: "range".to_string(), args }
                    },
                    _ => IrInstr::GetIndex { dest: d.clone(), src: a, index: b },
                };
                emit(instrs, i);
                proof {
                    assert(instrs_view(instrs@) =~= instrs_view(old(instrs)@) + lower_expr(st, *expr).1);
                }
                d
            },
            _ => {
                proof {
                    assert(false);
                }
                String::new()
            },
        }
    }

    /// The comparisons and logical operators: both operands, then the
    /// instruction, with the result recorded as a number.
    fn build_compare(&mut self, expr: &Expr, instrs: &mut Vec<IrInstr>) -> (t: String)
        requires
            *expr is Eq || *expr is Ne || *expr is Lt || *expr is Gt || *expr is And || *expr is Or,
            lower_expr(old(self).state(), *expr).0.temps <= usize::MAX,
        ensures
            expr_done(old(self).state(), *expr, final(self).state(), instrs_view(old(instrs)@), instrs_view(final(instrs)@), t@),
        decreases expr, 0nat,
    {
        proof {
            reveal(lower_expr);
        }
        let ghost st = self.state();
        match expr {
            Expr::Eq(l, r) | Expr::Ne(l, r) | Expr::Lt(l, r) | Expr::Gt(l, r) | Expr::And(l, r)
            | Expr::Or(l, r) => {
                proof {
                    lemma_lower_expr_step(lower_expr(st, **l).0, **r);
                }
                let a = self.build_expr(l, instrs);
                let b = self.build_expr(r, instrs);
                let d = self.fresh_temp();
                self.set_type(d.clone(), ValueType::Number);
                let i = match expr {
                    Expr::Eq(..) => IrInstr::Eq { dest: d.clone(), left: a, right: b },
                    Expr::Ne(..) => IrInstr::Ne { dest: d.clone(), left: a, right: b },
                    Expr::Lt(..) => IrInstr::Lt { dest: d.clone(), left: a, right: b },
                    Expr::Gt(..) => IrInstr::Gt { dest: d.clone(), left: a, right: b },
                    Expr::And(..) => IrInstr::LogicAnd { dest: d.clone(), left: a, right: b },
                    _ => IrInstr::LogicOr { dest: d.clone(), left: a, right: b },
                };
                emit(instrs, i);
                proof {
                    assert(instrs_view(instrs@) =~= instrs_view(old(instrs)@) + lower_expr(st, *expr).1);
                }
                d
            },
            _ => {
                proof {
                    assert(false);
                }
                String::new()
            },
        }
    }

    /// `<=` and `>=`: the negations of `>` and `<`, both results recorded as
    /// numbers.
    fn build_negated_compare(&mut self, expr: &Expr, instrs: &mut Vec<IrInstr>) -> (t: String)
        requires
            *expr is Le || *expr is Ge,
            lower_expr(old(self).state(), *expr).0.temps <= usize::MAX,
        ensures
            expr_done(old(self).state(), *expr, final(self).state(), instrs_view(old(instrs)@), instrs_view(final(instrs)@), t@),
        decreases expr, 0nat,
    {
        proof {
            reveal(lower_expr);
        }
        let ghost st = self.state();
        match expr {
            Expr::Le(l, r) | Expr::Ge(l, r) => {
                proof {
                    lemma_lower_expr_step(lower_expr(st, **l).0, **r);
                }
                let a = self.build_expr(l, instrs);
                let b = self.build_expr(r, instrs);
                let g = self.fresh_temp();
                self.set_type(g.clone(), ValueType::Number);
                let i = match expr {
                    Expr::Le(..) => IrInstr::Gt { dest: g.clone(), left: a, right: b },
                    _ => IrInstr::Lt { dest: g.clone(), left: a, right: b },
                };
                emit(instrs, i);
                let d = self.fresh_temp();
                self.set_type(d.clone(), ValueType::Number);
                emit(instrs, IrInstr::LogicNot { dest: d.clone(), src: g });
                proof {
                    assert(instrs_view(instrs@) =~= instrs_view(old(instrs)@) + lower_expr(st, *expr).1);
                }
                d
            },
            _ => {
                proof {
                    assert(false);
                }
                String::new()
            },
        }
    }

    /// The operators with one operand, and member reads.
    fn build_unary(&mut self, expr: &Expr, instrs: &mut Vec<IrInstr>) -> (t: String)
        requires
            *expr is Not || *expr is BitNot || *expr is Neg || *expr is Await || *expr is Ask || *expr is Member,
            lower_expr(old(self).state(), *expr).0.temps <= usize::MAX,
        ensures
            expr_done(old(self).state(), *expr, final(self).state(), instrs_view(old(instrs)@), instrs_view(final(instrs)@), t@),
        decreases expr, 0nat,
    {
        proof {
            reveal(lower_expr);
        }
        let ghost st = self.state();
        match expr {
            Expr::Not(x) => {
                let a = self.build_expr(x, instrs);
                let d = self.fresh_temp();
                self.set_type(d.clone(), ValueType::Number);
                emit(instrs, IrInstr::LogicNot { dest: d.clone(), src: a });
                proof {
                    assert(instrs_view(instrs@) =~= instrs_view(old(instrs)@) + lower_expr(st, *expr).1);
                }
                d
            },
            Expr::BitNot(x) => {
                let a = self.build_expr(x, instrs);
                let d = self.fresh_temp();
                emit(instrs, IrInstr::BitNot { dest: d.clone(), src: a });
                proof {
                    assert(instrs_view(instrs@) =~= instrs_view(old(instrs)@) + lower_expr(st, *expr).1);
                }
                d
            },
            Expr::Neg(x) => {
                let a = self.build_expr(x, instrs);
                let d = self.fresh_temp();
                let z = self.fresh_temp();
                emit(instrs, IrInstr::LoadConst { dest: z.clone(), value: IrValue::Number(ZERO_BITS) });
                emit(instrs, IrInstr::Sub { dest: d.clone(), left: z, right: a });
                proof {
                    assert(instrs_view(instrs@) =~= instrs_view(old(instrs)@) + lower_expr(st, *expr).1);
                }
                d
            },
            Expr::Await(x) => {
                let a = self.build_expr(x, instrs);
                let d = self.fresh_temp();
                emit(instrs, IrInstr::Await { dest: d.clone(), task: a });
                proof {
                    assert(instrs_view(instrs@) =~= instrs_view(old(instrs)@) + lower_expr(st, *expr).1);
                }
                d
            },
            Expr::Ask(x) => {
                let a = self.build_expr(x, instrs);
                let d = self.fresh_temp();
                self.set_type(d.clone(), ValueType::String);
                emit(instrs, IrInstr::Input { dest: d.clone(), prompt: a });
                proof {
                    assert(instrs_view(instrs@) =~= instrs_view(old(instrs)@) + lower_expr(st, *expr).1);
                }
                d
            },
            Expr::Member(x, m) => {
                let a = self.build_expr(x, instrs);
                let d = self.fresh_temp();
                emit(instrs, IrInstr::GetMember { dest: d.clone(), obj: a, member: m.clone() });
                proof {
                    assert(instrs_view(instrs@) =~= instrs_view(old(instrs)@) + lower_expr(st, *expr).1);
                }
                d
            },
            _ => {
                proof {
                    assert(false);
                }
                String::new()
            },
        }
    }

    /// Calls, method calls, and list and map literals.
    fn build_compound(&mut self, expr: &Expr, instrs: &mut Vec<IrInstr>) -> (t: String)
        requires
            *expr is Call || *expr is MethodCall || *expr is List || *expr is Mapping,
            lower_expr(old(self).state(), *expr).0.temps <= usize::MAX,
        ensures
            expr_done(old(self).state(), *expr, final(self).state(), instrs_view(old(instrs)@), instrs_view(final(instrs)@), t@),
        decreases expr, 0nat,
    {
        proof {
            reveal(lower_expr);
        }
        let ghost st = self.state();
        match expr {
            Expr::Call(f, args) => {
                let mut temps: Vec<String> = Vec::new();
                self.build_exprs(args, instrs, &mut temps);
                proof {
                    assert(names_view(temps@) =~= lower_exprs(st, args@).2);
                }
                let d = self.fresh_temp();
                emit(instrs, IrInstr::Call { dest: Some(d.clone()), func: f.clone(), args: temps });
                proof {
                    assert(instrs_view(instrs@) =~= instrs_view(old(instrs)@) + lower_expr(st, *expr).1);
                }
                d
            },
            Expr::MethodCall(recv, method, args) => {
                proof {
                    lemma_lower_exprs_step(lower_expr(st, **recv).0, args@);
                }
                let rv = self.build_expr(recv, instrs);
                let ghost rv_view = rv@;
                let resolved = self.method_name(recv, method);
                let mut temps: Vec<String> = Vec::new();
                temps.push(rv);
                let ghost first = names_view(temps@);
                assert(first =~= seq![rv_view]);
                self.build_exprs(args, instrs, &mut temps);
                let d = self.fresh_temp();
                emit(instrs, IrInstr::Call { dest: Some(d.clone()), func: resolved, args: temps });
                proof {
                    assert(instrs_view(instrs@) =~= instrs_view(old(instrs)@) + lower_expr(st, *expr).1);
                }
                d
            },
            Expr::List(items) => {
                let mut temps: Vec<String> = Vec::new();
                self.build_exprs(items, instrs, &mut temps);
                proof {
                    assert(names_view(temps@) =~= lower_exprs(st, items@).2);
                }
                let d = self.fresh_temp();
                emit(instrs, IrInstr::AllocList { dest: d.clone(), items: temps });
                self.set_type(d.clone(), ValueType::List);
                proof {
                    assert(instrs_view(instrs@) =~= instrs_view(old(instrs)@) + lower_expr(st, *expr).1);
                }
                d
            },
            Expr::Mapping(entries) => {
                proof {
                    let t = temp_name(st.temps);
                    lemma_lower_entries_step(st.next_temp().with_type(t, TypeView::Mapping), entries@, t);
                }
                let m = self.fresh_temp();
                emit(instrs, IrInstr::AllocMap { dest: m.clone() });
                self.set_type(m.clone(), ValueType::Mapping);
                self.build_entries(entries, &m, instrs);
                proof {
                    assert(instrs_view(instrs@) =~= instrs_view(old(instrs)@) + lower_expr(st, *expr).1);
                }
                m
            },
            _ => {
                proof {
                    assert(false);
                }
                String::new()
            },
        }
    }

    /// The function a method call on `recv` goes to.
    fn method_name(&self, recv: &Expr, method: &String) -> (r: String)
        ensures
            r@ == method_target(self.state(), *recv, method@),
    {
        match recv {
            Expr::Identifier(var) => {
                match self.var_types.get(var.as_str()) {
                    Some(ValueType::Struct(ty)) => {
                        let with_sep = concat(ty.as_str(), "_");
                        concat(with_sep.as_str(), method.as_str())
                    },
                    _ => method.clone(),
                }
            },
            _ => method.clone(),
        }
    }

    /// Appends the code of `es` in order, and their slots to `out`.
    fn build_exprs(&mut self, es: &Vec<Expr>, instrs: &mut Vec<IrInstr>, out: &mut Vec<String>)
        requires
            lower_exprs(old(self).state(), es@).0.temps <= usize::MAX,
        ensures
            final(self).state() == lower_exprs(old(self).state(), es@).0,
            instrs_view(final(instrs)@) == instrs_view(old(instrs)@) + lower_exprs(old(self).state(), es@).1,
            names_view(final(out)@) == names_view(old(out)@) + lower_exprs(old(self).state(), es@).2,
        decreases es, 0nat,
    {
        proof {
            reveal(lower_expr);
        }
        let ghost st = self.state();
        let mut i: usize = 0;
        assert(es@.take(0) =~= Seq::<Expr>::empty());
        assert(instrs_view(instrs@) =~= instrs_view(old(instrs)@) + Seq::<InstrView>::empty());
        assert(names_view(out@) =~= names_view(old(out)@) + Seq::<Seq<char>>::empty());
        while i < es.len()
            invariant
                0 <= i <= es.len(),
                lower_exprs(st, es@).0.temps <= usize::MAX,
                self.state() == lower_exprs(st, es@.take(i as int)).0,
                instrs_view(instrs@) == instrs_view(old(instrs)@) + lower_exprs(st, es@.take(i as int)).1,
                names_view(out@) == names_view(old(out)@) + lower_exprs(st, es@.take(i as int)).2,
            decreases es.len() - i,
        {
            proof {
                reveal(lower_expr);
                assert(es@.take(i + 1).drop_last() =~= es@.take(i as int));
                lemma_lower_exprs_prefix(st, es@, i + 1);
                assert(decreases_to!(es => es[i as int]));
            }
            let t = self.build_expr(&es[i], instrs);
            let ghost tv = t@;
            let ghost prev = out@;
            out.push(t);
            proof {
                assert(names_view(out@) =~= names_view(prev).push(tv));
                assert(names_view(out@) =~= names_view(old(out)@) + lower_exprs(st, es@.take(i + 1)).2);
                assert(instrs_view(instrs@) =~= instrs_view(old(instrs)@) + lower_exprs(st, es@.take(i + 1)).1);
            }
            i = i + 1;
        }
        assert(es@.take(es.len() as int) =~= es@);
    }

    /// Appends the code of the entries of a map literal, storing each into
    /// the map in slot `m`.
    fn build_entries(&mut self, es: &Vec<(Expr, Expr)>, m: &String, instrs: &mut Vec<IrInstr>)
        requires
            lower_entries(old(self).state(), es@, m@).0.temps <= usize::MAX,
        ensures
            final(self).state() == lower_entries(old(self).state(), es@, m@).0,
            instrs_view(final(instrs)@) == instrs_view(old(instrs)@) + lower_entries(old(self).state(), es@, m@).1,
        decreases es, 0nat,
    {
        proof {
            reveal(lower_expr);
        }
        let ghost st = self.state();
        let mut i: usize = 0;
        assert(es@.take(0) =~= Seq::<(Expr, Expr)>::empty());
        assert(instrs_view(instrs@) =~= instrs_view(old(instrs)@) + Seq::<InstrView>::empty());
        while i < es.len()
            invariant
                0 <= i <= es.len(),
                lower_entries(st, es@, m@).0.temps <= usize::MAX,
                self.state() == lower_entries(st, es@.take(i as int), m@).0,
                instrs_view(instrs@) == instrs_view(old(instrs)@) + lower_entries(st, es@.take(i as int), m@).1,
            decreases es.len() - i,
        {
            proof {
                reveal(lower_expr);
                assert(es@.take(i + 1).drop_last() =~= es@.take(i as int));
                lemma_lower_entries_prefix(st, es@, m@, i + 1);
                assert(decreases_to!(es => es[i as int]));
                let s1 = lower_entries(st, es@.take(i as int), m@).0;
                lemma_lower_expr_step(lower_expr(s1, es@[i as int].0).0, es@[i as int].1);
            }
            let k = self.build_expr(&es[i].0, instrs);
            let v = self.build_expr(&es[i].1, instrs);
            emit(instrs, IrInstr::SetMap { map: m.clone(), key: k, value: v });
            proof {
                assert(instrs_view(instrs@) =~= instrs_view(old(instrs)@) + lower_entries(st, es@.take(i + 1), m@).1);
            }
            i = i + 1;
        }
        assert(es@.take(es.len() as int) =~= es@);
    }
}

} // verus!

verus! {

impl BuildState {
    /// The state after taking `nt` temporaries and `nl` labels.
    pub open spec fn bump(self, nt: nat, nl: nat) -> BuildState {
        BuildState { temps: self.temps + nt, labels: self.labels + nl, ..self }
    }
}

/// The slot a `throw` leaves its value in for the `catch` block.
pub open spec fn thrown_slot() -> Seq<char> {
    "__core_thrown"@
}

/// The type a declaration or assignment records from the shape of its value,
/// if the shape says one.
pub open spec fn shape_type(e: Expr, structs: Set<Seq<char>>) -> Option<TypeView> {
    match e {
        Expr::Number(_) | Expr::Float(_) => Some(TypeView::Number),
        Expr::String(_) | Expr::Ask(_) => Some(TypeView::String),
        Expr::Bool(_) => Some(TypeView::Bool),
        Expr::List(_) => Some(TypeView::List),
        Expr::Mapping(_) => Some(TypeView::Mapping),
        Expr::Identifier(id) => if structs.contains(id@) {
            Some(TypeView::Struct(id@))
        } else {
            None
        },
        _ => None,
    }
}

/// The type recorded for `name` when `value` is assigned to it: the shape's
/// type, else the type it had, else unknown.
pub open spec fn assigned_type(st: BuildState, name: Seq<char>, value: Expr) -> TypeView {
    match shape_type(value, st.structs) {
        Some(t) => t,
        None => if st.var_types.contains_key(name) {
            st.var_types[name]
        } else {
            TypeView::Unknown
        },
    }
}

/// Lowering of a statement from state `st`: the state after it, the
/// instructions it appends, and the error it stops with, if any. On an
/// error the state and code are those reached when it was found.
pub open spec fn lower_stmt(st: BuildState, s: Stmt) -> (BuildState, Seq<InstrView>, Option<Seq<char>>)
    decreases s,
{
    match s {
        Stmt::VarDecl(name, e) => {
            let (s1, i1, t) = lower_expr(st, e);
            let ty = match shape_type(e, s1.structs) {
                Some(ty) => ty,
                None => TypeView::Unknown,
            };
            (s1.with_type(name@, ty), i1 + seq![InstrView::Move { dest: name@, src: t }], None)
        },
        Stmt::Assign(target, value) => {
            let (s1, i1, v) = lower_expr(st, value);
            match target {
                Expr::Identifier(tn) => (
                    s1.with_type(tn@, assigned_type(s1, tn@, value)),
                    i1 + seq![InstrView::Move { dest: tn@, src: v }],
                    None,
                ),
                Expr::Index(obj, idx) => {
                    let (s2, i2, o) = lower_expr(s1, *obj);
                    let (s3, i3, x) = lower_expr(s2, *idx);
                    (s3, i1 + i2 + i3 + seq![InstrView::SetIndex { src: o, index: x, value: v }], None)
                },
                Expr::Member(obj, m) => {
                    let (s2, i2, o) = lower_expr(s1, *obj);
                    (s2, i1 + i2 + seq![InstrView::SetMember { obj: o, member: m@, value: v }], None)
                },
                _ => (s1, i1, Some("Invalid assignment target"@)),
            }
        },
        Stmt::Say(e) => {
            let (s1, i1, t) = lower_expr(st, e);
            (s1, i1 + seq![InstrView::Print { src: t }], None)
        },
        Stmt::Return(e) => {
            let (s1, i1, t) = lower_expr(st, e);
            (s1, i1 + seq![InstrView::Return { value: Some(t) }], None)
        },
        Stmt::Expr(e) => {
            let (s1, i1, t) = lower_expr(st, e);
            (s1, i1, None)
        },
        Stmt::Import(_) => (st, seq![], Some("import is only supported at the top level (module scope)"@)),
        Stmt::Struct(_) => (st, seq![], None),
        Stmt::Block(ss) => lower_stmts(st, ss@),
        Stmt::Unsafe(ss) => lower_stmts(st, ss@),
        Stmt::Throw(e) => {
            let (s1, i1, v) = lower_expr(st, e);
            if s1.try_stack.len() == 0 {
                (s1, i1, Some("throw used outside of a try/catch block"@))
            } else {
                (s1, i1 + seq![
                    InstrView::Move { dest: thrown_slot(), src: v },
                    InstrView::Jump { label: s1.try_stack.last().0 },
                ], None)
            }
        },
        Stmt::TryCatch(body, err, catch) => {
            let c = label_name(st.labels);
            let e = label_name(st.labels + 1);
            let s1 = st.bump(0, 2).push_try(c, err@);
            let (s2, i2, r2) = lower_stmts(s1, body@);
            if r2 is Some {
                (s2, i2, r2)
            } else {
                let head = i2 + seq![
                    InstrView::Jump { label: e },
                    InstrView::Label { name: c },
                    InstrView::Move { dest: err@, src: thrown_slot() },
                ];
                let (s3, i3, r3) = lower_stmts(s2.pop_try(), catch@);
                if r3 is Some {
                    (s3, head + i3, r3)
                } else {
                    (s3, head + i3 + seq![InstrView::Label { name: e }], None)
                }
            }
        },
        Stmt::If(cond, then_block, else_block) => {
            let (s1, i1, c) = lower_expr(st, cond);
            let n = temp_name(s1.temps);
            let el = label_name(s1.labels);
            let en = label_name(s1.labels + 1);
            let head = i1 + seq![InstrView::LogicNot { dest: n, src: c }, InstrView::JumpIf { cond: n, label: el }];
            let (s2, i2, r2) = lower_stmts(s1.bump(1, 2), then_block@);
            if r2 is Some {
                (s2, head + i2, r2)
            } else {
                let mid = head + i2 + seq![InstrView::Jump { label: en }, InstrView::Label { name: el }];
                match else_block {
                    Some(es) => {
                        let (s3, i3, r3) = lower_stmts(s2, es@);
                        if r3 is Some {
                            (s3, mid + i3, r3)
                        } else {
                            (s3, mid + i3 + seq![InstrView::Label { name: en }], None)
                        }
                    },
                    None => (s2, mid + seq![InstrView::Label { name: en }], None),
                }
            }
        },
        Stmt::While(cond, body) => {
            let sl = label_name(st.labels);
            let el = label_name(st.labels + 1);
            let (s1, i1, c) = lower_expr(st.bump(0, 2), cond);
            let n = temp_name(s1.temps);
            let head = seq![InstrView::Label { name: sl }] + i1 + seq![
                InstrView::LogicNot { dest: n, src: c },
                InstrView::JumpIf { cond: n, label: el },
            ];
            let (s2, i2, r2) = lower_stmts(s1.bump(1, 0), body@);
            if r2 is Some {
                (s2, head + i2, r2)
            } else {
                (s2, head + i2 + seq![InstrView::Jump { label: sl }, InstrView::Label { name: el }], None)
            }
        },
        Stmt::For(var, iterable, body) => {
            match iterable {
                Expr::Range(a, b) => {
                    let (s1, i1, from) = lower_expr(st, *a);
                    let (s2, i2, to) = lower_expr(s1, *b);
                    let sl = label_name(s2.labels);
                    let el = label_name(s2.labels + 1);
                    let cl = label_name(s2.labels + 2);
                    let ct = temp_name(s2.temps);
                    let head = i1 + i2 + seq![
                        InstrView::Move { dest: var@, src: from },
                        InstrView::Label { name: sl },
                        InstrView::Lt { dest: ct, left: var@, right: to },
                        InstrView::JumpIf { cond: ct, label: cl },
                        InstrView::Jump { label: el },
                        InstrView::Label { name: cl },
                    ];
                    let (s3, i3, r3) = lower_stmts(s2.bump(1, 3), body@);
                    if r3 is Some {
                        (s3, head + i3, r3)
                    } else {
                        let one = temp_name(s3.temps);
                        let next = temp_name(s3.temps + 1);
                        (s3.bump(2, 0), head + i3 + seq![
                            InstrView::LoadConst { dest: one, value: ConstView::Number(ONE_BITS) },
                            InstrView::Add { dest: next, left: var@, right: one },
                            InstrView::Move { dest: var@, src: next },
                            InstrView::Jump { label: sl },
                            InstrView::Label { name: el },
                        ], None)
                    }
                },
                _ => {
                    let (s1, i1, it) = lower_expr(st, iterable);
                    let (head, s2) = for_each_head(s1, var@, it);
                    let (s3, i3, r3) = lower_stmts(s2, body@);
                    if r3 is Some {
                        (s3, i1 + head + i3, r3)
                    } else {
                        let ix = temp_name(s1.temps + 3);
                        let one = temp_name(s3.temps);
                        let next = temp_name(s3.temps + 1);
                        (s3.bump(2, 0), i1 + head + i3 + seq![
                            InstrView::LoadConst { dest: one, value: ConstView::Number(ONE_BITS) },
                            InstrView::Add { dest: next, left: ix, right: one },
                            InstrView::Move { dest: ix, src: next },
                            InstrView::Jump { label: label_name(s1.labels + 2) },
                            InstrView::Label { name: label_name(s1.labels + 3) },
                        ], None)
                    }
                },
            }
        },
    }
}

/// The code before the body of a loop over the items of a list, or over the
/// keys of a map, held in slot `it`: the items (or keys) go to a list slot,
/// an index slot starts at zero, and each round stores the indexed item in
/// `var`. Gives that code and the state the body starts from.
pub open spec fn for_each_head(s1: BuildState, var: Seq<char>, it: Seq<char>) -> (Seq<InstrView>, BuildState) {
    let t = s1.temps;
    let l = s1.labels;
    let list = temp_name(t);
    let is_map = temp_name(t + 1);
    let keys = temp_name(t + 2);
    let ix = temp_name(t + 3);
    let zero = temp_name(t + 4);
    let len = temp_name(t + 5);
    let cond = temp_name(t + 6);
    let item = temp_name(t + 7);
    (seq![
        InstrView::Call { dest: Some(is_map), func: "is_map"@, args: seq![it] },
        InstrView::JumpIf { cond: is_map, label: label_name(l) },
        InstrView::Move { dest: list, src: it },
        InstrView::Jump { label: label_name(l + 1) },
        InstrView::Label { name: label_name(l) },
        InstrView::Call { dest: Some(keys), func: "keys"@, args: seq![it] },
        InstrView::Move { dest: list, src: keys },
        InstrView::Label { name: label_name(l + 1) },
        InstrView::LoadConst { dest: zero, value: ConstView::Number(ZERO_BITS) },
        InstrView::Move { dest: ix, src: zero },
        InstrView::Label { name: label_name(l + 2) },
        InstrView::Call { dest: Some(len), func: "len"@, args: seq![list] },
        InstrView::Lt { dest: cond, left: ix, right: len },
        InstrView::JumpIf { cond: cond, label: label_name(l + 4) },
        InstrView::Jump { label: label_name(l + 3) },
        InstrView::Label { name: label_name(l + 4) },
        InstrView::GetIndex { dest: item, src: list, index: ix },
        InstrView::Move { dest: var, src: item },
    ], s1.bump(8, 5))
}

/// Lowering of statements in order, stopping at the first error.
pub open spec fn lower_stmts(st: BuildState, ss: Seq<Stmt>) -> (BuildState, Seq<InstrView>, Option<Seq<char>>)
    decreases ss,
{
    if ss.len() == 0 {
        (st, seq![], None)
    } else {
        let (s1, i1, r1) = lower_stmts(st, ss.drop_last());
        if r1 is Some {
            (s1, i1, r1)
        } else {
            let (s2, i2, r2) = lower_stmt(s1, ss.last());
            (s2, i1 + i2, r2)
        }
    }
}

} // verus!

verus! {

/// One step of lowering statements: the counters never go down, and the
/// declared structs, traits and functions stay as they were.
pub open spec fn stmt_step(a: BuildState, b: BuildState) -> bool {
    &&& a.temps <= b.temps
    &&& a.labels <= b.labels
    &&& a.structs == b.structs
    &&& a.traits == b.traits
    &&& a.known == b.known
}

/// Lowering a statement only moves the counters forward and records types
/// and `try` blocks.
pub proof fn lemma_lower_stmt_step(st: BuildState, s: Stmt)
    ensures
        stmt_step(st, lower_stmt(st, s).0),
        lower_stmt(st, s).2 is None ==> lower_stmt(st, s).0.try_stack == st.try_stack,
    decreases s,
{
    match s {
        Stmt::VarDecl(_, e) | Stmt::Say(e) | Stmt::Return(e) | Stmt::Expr(e) | Stmt::Throw(e) => {
            lemma_lower_expr_step(st, e);
        },
        Stmt::Assign(target, value) => {
            lemma_lower_expr_step(st, value);
            let s1 = lower_expr(st, value).0;
            match target {
                Expr::Index(obj, idx) => {
                    lemma_lower_expr_step(s1, *obj);
                    lemma_lower_expr_step(lower_expr(s1, *obj).0, *idx);
                },
                Expr::Member(obj, _) => {
                    lemma_lower_expr_step(s1, *obj);
                },
                _ => {},
            }
        },
        Stmt::Block(ss) | Stmt::Unsafe(ss) => {
            lemma_lower_stmts_step(st, ss@);
        },
        Stmt::TryCatch(body, err, catch) => {
            let c = label_name(st.labels);
            let s1 = st.bump(0, 2).push_try(c, err@);
            lemma_lower_stmts_step(s1, body@);
            let s2 = lower_stmts(s1, body@).0;
            lemma_lower_stmts_step(s2.pop_try(), catch@);
        },
        Stmt::If(cond, then_block, else_block) => {
            lemma_lower_expr_step(st, cond);
            let s1 = lower_expr(st, cond).0;
            lemma_lower_stmts_step(s1.bump(1, 2), then_block@);
            match else_block {
                Some(es) => {
                    lemma_lower_stmts_step(lower_stmts(s1.bump(1, 2), then_block@).0, es@);
                },
                None => {},
            }
        },
        Stmt::While(cond, body) => {
            lemma_lower_expr_step(st.bump(0, 2), cond);
            lemma_lower_stmts_step(lower_expr(st.bump(0, 2), cond).0.bump(1, 0), body@);
        },
        Stmt::For(var, iterable, body) => {
            match iterable {
                Expr::Range(a, b) => {
                    lemma_lower_expr_step(st, *a);
                    let s1 = lower_expr(st, *a).0;
                    lemma_lower_expr_step(s1, *b);
                    lemma_lower_stmts_step(lower_expr(s1, *b).0.bump(1, 3), body@);
                },
                _ => {
                    lemma_lower_expr_step(st, iterable);
                    let (s1, i1, it) = lower_expr(st, iterable);
                    lemma_lower_stmts_step(for_each_head(s1, var@, it).1, body@);
                },
            }
        },
        _ => {},
    }
}

/// Lowering statements in order only moves the counters forward and records
/// types and `try` blocks.
pub proof fn lemma_lower_stmts_step(st: BuildState, ss: Seq<Stmt>)
    ensures
        stmt_step(st, lower_stmts(st, ss).0),
        lower_stmts(st, ss).2 is None ==> lower_stmts(st, ss).0.try_stack == st.try_stack,
    decreases ss,
{
    if ss.len() > 0 {
        lemma_lower_stmts_step(st, ss.drop_last());
        lemma_lower_stmt_step(lower_stmts(st, ss.drop_last()).0, ss.last());
    }
}

/// A prefix of a list of statements that lowers without an error lowers to
/// a state on the way to the state of the whole list.
pub proof fn lemma_lower_stmts_prefix(st: BuildState, ss: Seq<Stmt>, k: int)
    requires
        0 <= k <= ss.len(),
    ensures
        stmt_step(lower_stmts(st, ss.take(k)).0, lower_stmts(st, ss).0),
        lower_stmts(st, ss.take(k)).2 is Some ==> lower_stmts(st, ss) == lower_stmts(st, ss.take(k)),
    decreases ss.len() - k,
{
    if k == ss.len() {
        assert(ss.take(k) =~= ss);
    } else {
        lemma_lower_stmts_prefix(st, ss, k + 1);
        assert(ss.take(k + 1).drop_last() =~= ss.take(k));
        lemma_lower_stmt_step(lower_stmts(st, ss.take(k)).0, ss[k]);
    }
}

} // verus!

verus! {

/// `after` and the code appended between `code_before` and `code_after` are
/// what lowering `s` from `st` gives, and `r` is `Ok` exactly when that
/// lowering ends without an error, else that error.
pub open spec fn stmt_done(
    st: BuildState,
    s: Stmt,
    after: BuildState,
    code_before: Seq<InstrView>,
    code_after: Seq<InstrView>,
    r: Result<(), String>,
) -> bool {
    let x = lower_stmt(st, s);
    &&& after == x.0
    &&& code_after == code_before + x.1
    &&& match r {
        Ok(_) => x.2 is None,
        Err(m) => x.2 == Some(m@),
    }
}

/// The same for a list of statements.
pub open spec fn stmts_done(
    st: BuildState,
    ss: Seq<Stmt>,
    after: BuildState,
    code_before: Seq<InstrView>,
    code_after: Seq<InstrView>,
    r: Result<(), String>,
) -> bool {
    let x = lower_stmts(st, ss);
    &&& after == x.0
    &&& code_after == code_before + x.1
    &&& match r {
        Ok(_) => x.2 is None,
        Err(m) => x.2 == Some(m@),
    }
}

/// A copy of an inferred type.
fn copy_type(t: &ValueType) -> (r: ValueType)
    ensures
        r@ == t@,
{
    match t {
        ValueType::Number => ValueType::Number,
        ValueType::String => ValueType::String,
        ValueType::Bool => ValueType::Bool,
        ValueType::Struct(s) => ValueType::Struct(s.clone()),
        ValueType::List => ValueType::List,
        ValueType::Mapping => ValueType::Mapping,
        ValueType::Unknown => ValueType::Unknown,
    }
}

/// A one-name list.
fn one_name(n: String) -> (v: Vec<String>)
    ensures
        names_view(v@) == seq![n@],
{
    let ghost k = n@;
    let mut v: Vec<String> = Vec::new();
    v.push(n);
    assert(names_view(v@) =~= seq![k]);
    v
}

impl IrBuilder {
    /// The type the shape of `e` says, if it says one.
    fn shape_of(&self, e: &Expr) -> (r: Option<ValueType>)
        ensures
            match r {
                Some(t) => shape_type(*e, self.state().structs) == Some(t@),
                None => shape_type(*e, self.state().structs) is None,
            },
    {
        match e {
            Expr::Number(_) | Expr::Float(_) => Some(ValueType::Number),
            Expr::String(_) | Expr::Ask(_) => Some(ValueType::String),
            Expr::Bool(_) => Some(ValueType::Bool),
            Expr::List(_) => Some(ValueType::List),
            Expr::Mapping(_) => Some(ValueType::Mapping),
            Expr::Identifier(id) => {
                if self.structs.contains_key(id.as_str()) {
                    Some(ValueType::Struct(id.clone()))
                } else {
                    None
                }
            },
            _ => None,
        }
    }

    /// Enters a `try` block.
    fn push_try(&mut self, catch_label: String, err_var: String)
        ensures
            final(self).state() == old(self).state().push_try(catch_label@, err_var@),
    {
        let ghost c = catch_label@;
        let ghost e = err_var@;
        self.try_stack.push((catch_label, err_var));
        assert(self.state().try_stack =~= old(self).state().try_stack.push((c, e)));
    }

    /// Leaves the innermost `try` block.
    fn pop_try(&mut self)
        requires
            old(self).state().try_stack.len() > 0,
        ensures
            final(self).state() == old(self).state().pop_try(),
    {
        self.try_stack.pop();
        assert(self.state().try_stack =~= old(self).state().try_stack.drop_last());
    }

    /// Appends the code of `stmt` to `instrs`.
    fn build_statement(&mut self, stmt: &Stmt, instrs: &mut Vec<IrInstr>) -> (r: Result<(), String>)
        requires
            lower_stmt(old(self).state(), *stmt).0.fits(),
        ensures
            stmt_done(old(self).state(), *stmt, final(self).state(), instrs_view(old(instrs)@), instrs_view(final(instrs)@), r),
        decreases stmt, 1nat,
    {
        match stmt {
            Stmt::Block(ss) | Stmt::Unsafe(ss) => self.build_statements(ss, instrs),
            Stmt::TryCatch(..) => self.build_try(stmt, instrs),
            Stmt::If(..) => self.build_if(stmt, instrs),
            Stmt::While(..) => self.build_while(stmt, instrs),
            Stmt::For(_, Expr::Range(..), _) => self.build_for_range(stmt, instrs),
            Stmt::For(..) => self.build_for_each(stmt, instrs),
            _ => self.build_simple(stmt, instrs),
        }
    }

    /// Appends the code of `ss` in order, stopping at the first error.
    fn build_statements(&mut self, ss: &Vec<Stmt>, instrs: &mut Vec<IrInstr>) -> (r: Result<(), String>)
        requires
            lower_stmts(old(self).state(), ss@).0.fits(),
        ensures
            stmts_done(old(self).state(), ss@, final(self).state(), instrs_view(old(instrs)@), instrs_view(final(instrs)@), r),
        decreases ss, 0nat,
    {
        let ghost st = self.state();
        let mut i: usize = 0;
        assert(ss@.take(0) =~= Seq::<Stmt>::empty());
        assert(instrs_view(instrs@) =~= instrs_view(old(instrs)@) + Seq::<InstrView>::empty());
        while i < ss.len()
            invariant
                0 <= i <= ss.len(),
                st == old(self).state(),
                lower_stmts(st, ss@).0.fits(),
                self.state() == lower_stmts(st, ss@.take(i as int)).0,
                instrs_view(instrs@) == instrs_view(old(instrs)@) + lower_stmts(st, ss@.take(i as int)).1,
                lower_stmts(st, ss@.take(i as int)).2 is None,
            decreases ss.len() - i,
        {
            proof {
                assert(ss@.take(i + 1).drop_last() =~= ss@.take(i as int));
                assert(ss@.take(i + 1).last() == ss@[i as int]);
                lemma_lower_stmts_prefix(st, ss@, i + 1);
                assert(decreases_to!(ss => ss[i as int]));
            }
            let r = self.build_statement(&ss[i], instrs);
            proof {
                assert(instrs_view(instrs@) =~= instrs_view(old(instrs)@) + lower_stmts(st, ss@.take(i + 1)).1);
            }
            match r {
                Err(m) => {
                    proof {
                        assert(lower_stmts(st, ss@.take(i + 1)).2 == Some(m@));
                        assert(lower_stmts(st, ss@) == lower_stmts(st, ss@.take(i + 1)));
                    }
                    return Err(m);
                },
                Ok(()) => {},
            }
            i = i + 1;
        }
        assert(ss@.take(ss.len() as int) =~= ss@);
        Ok(())
    }

    /// Declarations, assignments, `say`, `return`, expression statements,
    /// `import`, struct declarations and `throw`.
    fn build_simple(&mut self, stmt: &Stmt, instrs: &mut Vec<IrInstr>) -> (r: Result<(), String>)
        requires
            *stmt is VarDecl || *stmt is Assign || *stmt is Say || *stmt is Return || *stmt is Expr
                || *stmt is Import || *stmt is Struct || *stmt is Throw,
            lower_stmt(old(self).state(), *stmt).0.fits(),
        ensures
            stmt_done(old(self).state(), *stmt, final(self).state(), instrs_view(old(instrs)@), instrs_view(final(instrs)@), r),
        decreases stmt, 0nat,
    {
        let ghost st = self.state();
        match stmt {
            Stmt::VarDecl(name, e) => {
                let t = self.build_expr(e, instrs);
                let ty = match self.shape_of(e) {
                    Some(ty) => ty,
                    None => ValueType::Unknown,
                };
                self.set_type(name.clone(), ty);
                emit(instrs, IrInstr::Move { dest: name.clone(), src: t });
                proof {
                    assert(instrs_view(instrs@) =~= instrs_view(old(instrs)@) + lower_stmt(st, *stmt).1);
                }
                Ok(())
            },
            Stmt::Assign(target, value) => {
                proof {
                    lemma_lower_expr_step(st, *value);
                    let s1 = lower_expr(st, *value).0;
                    match target {
                        Expr::Index(obj, idx) => {
                            lemma_lower_expr_step(s1, **obj);
                            lemma_lower_expr_step(lower_expr(s1, **obj).0, **idx);
                        },
                        Expr::Member(obj, _) => {
                            lemma_lower_expr_step(s1, **obj);
                        },
                        _ => {},
                    }
                }
                let v = self.build_expr(value, instrs);
                match target {
                    Expr::Identifier(tn) => {
                        let ty = match self.shape_of(value) {
                            Some(ty) => ty,
                            None => match self.var_types.get(tn.as_str()) {
                                Some(old_ty) => copy_type(old_ty),
                                None => ValueType::Unknown,
                            },
                        };
                        self.set_type(tn.clone(), ty);
                        emit(instrs, IrInstr::Move { dest: tn.clone(), src: v });
                proof {
                    assert(instrs_view(instrs@) =~= instrs_view(old(instrs)@) + lower_stmt(st, *stmt).1);
                }
                        Ok(())
                    },
                    Expr::Index(obj, idx) => {
                        let o = self.build_expr(obj, instrs);
                        let x = self.build_expr(idx, instrs);
                        emit(instrs, IrInstr::SetIndex { src: o, index: x, value: v });
                proof {
                    assert(instrs_view(instrs@) =~= instrs_view(old(instrs)@) + lower_stmt(st, *stmt).1);
                }
                        Ok(())
                    },
                    Expr::Member(obj, m) => {
                        let o = self.build_expr(obj, instrs);
                        emit(instrs, IrInstr::SetMember { obj: o, member: m.clone(), value: v });
                proof {
                    assert(instrs_view(instrs@) =~= instrs_view(old(instrs)@) + lower_stmt(st, *stmt).1);
                }
                        Ok(())
                    },
                    _ => Err("Invalid assignment target".to_string()),
                }
            },
            Stmt::Say(e) => {
                let t = self.build_expr(e, instrs);
                emit(instrs, IrInstr::Print { src: t });
                proof {
                    assert(instrs_view(instrs@) =~= instrs_view(old(instrs)@) + lower_stmt(st, *stmt).1);
                }
                Ok(())
            },
            Stmt::Return(e) => {
                let t = self.build_expr(e, instrs);
                emit(instrs, IrInstr::Return { value: Some(t) });
                proof {
                    assert(instrs_view(instrs@) =~= instrs_view(old(instrs)@) + lower_stmt(st, *stmt).1);
                }
                Ok(())
            },
            Stmt::Expr(e) => {
                let _t = self.build_expr(e, instrs);
                Ok(())
            },
            Stmt::Import(_) => {
                proof {
                    assert(instrs_view(instrs@) =~= instrs_view(old(instrs)@) + lower_stmt(st, *stmt).1);
                }
                Err("import is only supported at the top level (module scope)".to_string())
            },
            Stmt::Struct(_) => {
                proof {
                    assert(instrs_view(instrs@) =~= instrs_view(old(instrs)@) + lower_stmt(st, *stmt).1);
                }
                Ok(())
            },
            Stmt::Throw(e) => {
                let v = self.build_expr(e, instrs);
                let n = self.try_stack.len();
                if n == 0 {
                    Err("throw used outside of a try/catch block".to_string())
                } else {
                    let c = self.try_stack[n - 1].0.clone();
                    emit(instrs, IrInstr::Move { dest: "__core_thrown".to_string(), src: v });
                    emit(instrs, IrInstr::Jump { label: c });
                proof {
                    assert(instrs_view(instrs@) =~= instrs_view(old(instrs)@) + lower_stmt(st, *stmt).1);
                }
                    Ok(())
                }
            },
            _ => {
                proof {
                    assert(false);
                }
                Ok(())
            },
        }
    }

    /// `try { .. } catch err { .. }`: the body with a catch label to jump to,
    /// then the catch block, which takes the thrown value.
    fn build_try(&mut self, stmt: &Stmt, instrs: &mut Vec<IrInstr>) -> (r: Result<(), String>)
        requires
            *stmt is TryCatch,
            lower_stmt(old(self).state(), *stmt).0.fits(),
        ensures
            stmt_done(old(self).state(), *stmt, final(self).state(), instrs_view(old(instrs)@), instrs_view(final(instrs)@), r),
        decreases stmt, 0nat,
    {
        let ghost st = self.state();
        match stmt {
            Stmt::TryCatch(body, err, catch) => {
                proof {
                    let s1 = st.bump(0, 2).push_try(label_name(st.labels), err@);
                    lemma_lower_stmts_step(s1, body@);
                    lemma_lower_stmts_step(lower_stmts(s1, body@).0.pop_try(), catch@);
                }
                let c = self.fresh_label();
                let e = self.fresh_label();
                self.push_try(c.clone(), err.clone());
                let r = self.build_statements(body, instrs);
                match r {
                    Err(m) => {
                        return Err(m);
                    },
                    Ok(()) => {},
                }
                proof {
                    lemma_lower_stmts_step(st.bump(0, 2).push_try(label_name(st.labels), err@), body@);
                }
                self.pop_try();
                emit(instrs, IrInstr::Jump { label: e.clone() });
                emit(instrs, IrInstr::Label { name: c });
                emit(instrs, IrInstr::Move { dest: err.clone(), src: "__core_thrown".to_string() });
                let r = self.build_statements(catch, instrs);
                match r {
                    Err(m) => {
                proof {
                    assert(instrs_view(instrs@) =~= instrs_view(old(instrs)@) + lower_stmt(st, *stmt).1);
                }
                        return Err(m);
                    },
                    Ok(()) => {},
                }
                emit(instrs, IrInstr::Label { name: e });
                proof {
                    assert(instrs_view(instrs@) =~= instrs_view(old(instrs)@) + lower_stmt(st, *stmt).1);
                }
                Ok(())
            },
            _ => {
                proof {
                    assert(false);
                }
                Ok(())
            },
        }
    }

    /// `if`: the negated condition jumps to the else part; the then part
    /// jumps over it.
    #[verifier::rlimit(50)]
    fn build_if(&mut self, stmt: &Stmt, instrs: &mut Vec<IrInstr>) -> (r: Result<(), String>)
        requires
            *stmt is If,
            lower_stmt(old(self).state(), *stmt).0.fits(),
        ensures
            stmt_done(old(self).state(), *stmt, final(self).state(), instrs_view(old(instrs)@), instrs_view(final(instrs)@), r),
        decreases stmt, 0nat,
    {
        let ghost st = self.state();
        match stmt {
            Stmt::If(cond, then_block, else_block) => {
                proof {
                    lemma_lower_expr_step(st, *cond);
                    let s1 = lower_expr(st, *cond).0;
                    lemma_lower_stmts_step(s1.bump(1, 2), then_block@);
                    match else_block {
                        Some(es) => {
                            lemma_lower_stmts_step(lower_stmts(s1.bump(1, 2), then_block@).0, es@);
                        },
                        None => {},
                    }
                }
                let c = self.build_expr(cond, instrs);
                let n = self.fresh_temp();
                emit(instrs, IrInstr::LogicNot { dest: n.clone(), src: c });
                let el = self.fresh_label();
                let en = self.fresh_label();
                emit(instrs, IrInstr::JumpIf { cond: n, label: el.clone() });
                let r = self.build_statements(then_block, instrs);
                match r {
                    Err(m) => {
                proof {
                    assert(instrs_view(instrs@) =~= instrs_view(old(instrs)@) + lower_stmt(st, *stmt).1);
                }
                        return Err(m);
                    },
                    Ok(()) => {},
                }
                emit(instrs, IrInstr::Jump { label: en.clone() });
                emit(instrs, IrInstr::Label { name: el });
                match else_block {
                    Some(es) => {
                        let r = self.build_statements(es, instrs);
                        match r {
                            Err(m) => {
                proof {
                    assert(instrs_view(instrs@) =~= instrs_view(old(instrs)@) + lower_stmt(st, *stmt).1);
                }
                                return Err(m);
                            },
                            Ok(()) => {},
                        }
                    },
                    None => {},
                }
                emit(instrs, IrInstr::Label { name: en });
                proof {
                    assert(instrs_view(instrs@) =~= instrs_view(old(instrs)@) + lower_stmt(st, *stmt).1);
                }
                Ok(())
            },
            _ => {
                proof {
                    assert(false);
                }
                Ok(())
            },
        }
    }

    /// `while`: a start label, the negated condition jumping to the end, the
    /// body and a jump back.
    fn build_while(&mut self, stmt: &Stmt, instrs: &mut Vec<IrInstr>) -> (r: Result<(), String>)
        requires
            *stmt is While,
            lower_stmt(old(self).state(), *stmt).0.fits(),
        ensures
            stmt_done(old(self).state(), *stmt, final(self).state(), instrs_view(old(instrs)@), instrs_view(final(instrs)@), r),
        decreases stmt, 0nat,
    {
        let ghost st = self.state();
        match stmt {
            Stmt::While(cond, body) => {
                proof {
                    lemma_lower_expr_step(st.bump(0, 2), *cond);
                    lemma_lower_stmts_step(lower_expr(st.bump(0, 2), *cond).0.bump(1, 0), body@);
                }
                let sl = self.fresh_label();
                let el = self.fresh_label();
                emit(instrs, IrInstr::Label { name: sl.clone() });
                let c = self.build_expr(cond, instrs);
                let n = self.fresh_temp();
                emit(instrs, IrInstr::LogicNot { dest: n.clone(), src: c });
                emit(instrs, IrInstr::JumpIf { cond: n, label: el.clone() });
                let r = self.build_statements(body, instrs);
                match r {
                    Err(m) => {
                proof {
                    assert(instrs_view(instrs@) =~= instrs_view(old(instrs)@) + lower_stmt(st, *stmt).1);
                }
                        return Err(m);
                    },
                    Ok(()) => {},
                }
                emit(instrs, IrInstr::Jump { label: sl });
                emit(instrs, IrInstr::Label { name: el });
                proof {
                    assert(instrs_view(instrs@) =~= instrs_view(old(instrs)@) + lower_stmt(st, *stmt).1);
                }
                Ok(())
            },
            _ => {
                proof {
                    assert(false);
                }
                Ok(())
            },
        }
    }

    /// `for var in a..b`: `var` counts up from `a` while it is below `b`.
    #[verifier::rlimit(50)]
    fn build_for_range(&mut self, stmt: &Stmt, instrs: &mut Vec<IrInstr>) -> (r: Result<(), String>)
        requires
            *stmt is For && stmt->For_1 is Range,
            lower_stmt(old(self).state(), *stmt).0.fits(),
        ensures
            stmt_done(old(self).state(), *stmt, final(self).state(), instrs_view(old(instrs)@), instrs_view(final(instrs)@), r),
        decreases stmt, 0nat,
    {
        let ghost st = self.state();
        match stmt {
            Stmt::For(var, Expr::Range(a, b), body) => {
                proof {
                    lemma_lower_expr_step(st, **a);
                    let s1 = lower_expr(st, **a).0;
                    lemma_lower_expr_step(s1, **b);
                    lemma_lower_stmts_step(lower_expr(s1, **b).0.bump(1, 3), body@);
                }
                let from = self.build_expr(a, instrs);
                let to = self.build_expr(b, instrs);
                emit(instrs, IrInstr::Move { dest: var.clone(), src: from });
                let sl = self.fresh_label();
                let el = self.fresh_label();
                emit(instrs, IrInstr::Label { name: sl.clone() });
                let ct = self.fresh_temp();
                emit(instrs, IrInstr::Lt { dest: ct.clone(), left: var.clone(), right: to });
                let cl = self.fresh_label();
                emit(instrs, IrInstr::JumpIf { cond: ct, label: cl.clone() });
                emit(instrs, IrInstr::Jump { label: el.clone() });
                emit(instrs, IrInstr::Label { name: cl });
                let r = self.build_statements(body, instrs);
                match r {
                    Err(m) => {
                proof {
                    assert(instrs_view(instrs@) =~= instrs_view(old(instrs)@) + lower_stmt(st, *stmt).1);
                }
                        return Err(m);
                    },
                    Ok(()) => {},
                }
                let one = self.fresh_temp();
                emit(instrs, IrInstr::LoadConst { dest: one.clone(), value: IrValue::Number(ONE_BITS) });
                let next = self.fresh_temp();
                emit(instrs, IrInstr::Add { dest: next.clone(), left: var.clone(), right: one });
                emit(instrs, IrInstr::Move { dest: var.clone(), src: next });
                emit(instrs, IrInstr::Jump { label: sl });
                emit(instrs, IrInstr::Label { name: el });
                proof {
                    assert(instrs_view(instrs@) =~= instrs_view(old(instrs)@) + lower_stmt(st, *stmt).1);
                }
                Ok(())
            },
            _ => {
                proof {
                    assert(false);
                }
                Ok(())
            },
        }
    }

    /// Appends the code before the body of a loop over the items held in
    /// slot `it`, and gives the index slot, the start label and the end
    /// label.
    fn emit_for_each_head(&mut self, var: &String, it: String, instrs: &mut Vec<IrInstr>) -> (r: (String, String, String))
        requires
            old(self).state().bump(8, 5).fits(),
        ensures
            final(self).state() == for_each_head(old(self).state(), var@, it@).1,
            instrs_view(final(instrs)@) == instrs_view(old(instrs)@) + for_each_head(old(self).state(), var@, it@).0,
            r.0@ == temp_name(old(self).state().temps + 3),
            r.1@ == label_name(old(self).state().labels + 2),
            r.2@ == label_name(old(self).state().labels + 3),
    {
        let ghost st = self.state();
        let list = self.fresh_temp();
        let is_map = self.fresh_temp();
        emit(instrs, IrInstr::Call { dest: Some(is_map.clone()), func: "is_map".to_string(), args: one_name(it.clone()) });
        let ml = self.fresh_label();
        let nl = self.fresh_label();
        emit(instrs, IrInstr::JumpIf { cond: is_map, label: ml.clone() });
        emit(instrs, IrInstr::Move { dest: list.clone(), src: it.clone() });
        emit(instrs, IrInstr::Jump { label: nl.clone() });
        emit(instrs, IrInstr::Label { name: ml });
        let keys = self.fresh_temp();
        emit(instrs, IrInstr::Call { dest: Some(keys.clone()), func: "keys".to_string(), args: one_name(it) });
        emit(instrs, IrInstr::Move { dest: list.clone(), src: keys });
        emit(instrs, IrInstr::Label { name: nl });
        let ix = self.fresh_temp();
        let zero = self.fresh_temp();
        emit(instrs, IrInstr::LoadConst { dest: zero.clone(), value: IrValue::Number(ZERO_BITS) });
        emit(instrs, IrInstr::Move { dest: ix.clone(), src: zero });
        let sl = self.fresh_label();
        let el = self.fresh_label();
        emit(instrs, IrInstr::Label { name: sl.clone() });
        let len = self.fresh_temp();
        emit(instrs, IrInstr::Call { dest: Some(len.clone()), func: "len".to_string(), args: one_name(list.clone()) });
        let cond = self.fresh_temp();
        emit(instrs, IrInstr::Lt { dest: cond.clone(), left: ix.clone(), right: len });
        let bl = self.fresh_label();
        emit(instrs, IrInstr::JumpIf { cond: cond, label: bl.clone() });
        emit(instrs, IrInstr::Jump { label: el.clone() });
        emit(instrs, IrInstr::Label { name: bl });
        let item = self.fresh_temp();
        emit(instrs, IrInstr::GetIndex { dest: item.clone(), src: list, index: ix.clone() });
        emit(instrs, IrInstr::Move { dest: var.clone(), src: item });
        proof {
            assert(instrs_view(instrs@) =~= instrs_view(old(instrs)@) + for_each_head(st, var@, it@).0);
        }
        (ix, sl, el)
    }

    /// `for var in xs`: over the items of a list, or the keys of a map.
    #[verifier::rlimit(50)]
    fn build_for_each(&mut self, stmt: &Stmt, instrs: &mut Vec<IrInstr>) -> (r: Result<(), String>)
        requires
            *stmt is For && !(stmt->For_1 is Range),
            lower_stmt(old(self).state(), *stmt).0.fits(),
        ensures
            stmt_done(old(self).state(), *stmt, final(self).state(), instrs_view(old(instrs)@), instrs_view(final(instrs)@), r),
        decreases stmt, 0nat,
    {
        let ghost st = self.state();
        match stmt {
            Stmt::For(var, iterable, body) => {
                proof {
                    lemma_lower_expr_step(st, *iterable);
                    let (s1, i1, it) = lower_expr(st, *iterable);
                    lemma_lower_stmts_step(for_each_head(s1, var@, it).1, body@);
                }
                let it = self.build_expr(iterable, instrs);
                let (ix, sl, el) = self.emit_for_each_head(var, it, instrs);
                let r = self.build_statements(body, instrs);
                match r {
                    Err(m) => {
                proof {
                    assert(instrs_view(instrs@) =~= instrs_view(old(instrs)@) + lower_stmt(st, *stmt).1);
                }
                        return Err(m);
                    },
                    Ok(()) => {},
                }
                let one = self.fresh_temp();
                emit(instrs, IrInstr::LoadConst { dest: one.clone(), value: IrValue::Number(ONE_BITS) });
                let next = self.fresh_temp();
                emit(instrs, IrInstr::Add { dest: next.clone(), left: ix.clone(), right: one });
                emit(instrs, IrInstr::Move { dest: ix, src: next });
                emit(instrs, IrInstr::Jump { label: sl });
                emit(instrs, IrInstr::Label { name: el });
                proof {
                    assert(instrs_view(instrs@) =~= instrs_view(old(instrs)@) + lower_stmt(st, *stmt).1);
                }
                Ok(())
            },
            _ => {
                proof {
                    assert(false);
                }
                Ok(())
            },
        }
    }
}

} // verus!

verus! {

impl BuildState {
    /// The state after recording that `name` takes `arity` arguments.
    pub open spec fn with_known(self, name: Seq<char>, arity: usize) -> BuildState {
        BuildState { known: self.known.insert(name, arity), ..self }
    }
}

impl ProgramView {
    /// The program with `f` stored under `name`.
    pub open spec fn with_function(self, name: Seq<char>, f: FunctionView) -> ProgramView {
        ProgramView { functions: self.functions.insert(name, f), ..self }
    }
}

/// The state after recording each parameter's type as unknown.
pub open spec fn with_params(st: BuildState, ps: Seq<Seq<char>>) -> BuildState
    decreases ps.len(),
{
    if ps.len() == 0 {
        st
    } else {
        with_params(st, ps.drop_last()).with_type(ps.last(), TypeView::Unknown)
    }
}

/// Lowering of a function under `name`: its parameters' types are recorded
/// as unknown, then its body is lowered; an error in the body is the
/// function's error.
pub open spec fn lower_function(st: BuildState, name: Seq<char>, f: FnDef) -> (BuildState, Result<FunctionView, Seq<char>>) {
    let s1 = with_params(st, names_view(f.params@));
    let (s2, code, r) = lower_stmts(s1, f.body@);
    match r {
        Some(m) => (s2, Err(m)),
        None => (s2, Ok(FunctionView {
            name: name,
            params: names_view(f.params@),
            instructions: code,
            is_async: f.is_async,
            locals: seq![],
        })),
    }
}

/// Recording parameter types leaves the counters as they were.
pub proof fn lemma_with_params_counters(st: BuildState, ps: Seq<Seq<char>>)
    ensures
        with_params(st, ps).temps == st.temps,
        with_params(st, ps).labels == st.labels,
    decreases ps.len(),
{
    if ps.len() > 0 {
        lemma_with_params_counters(st, ps.drop_last());
    }
}

/// Lowering a function never moves a counter back.
pub proof fn lemma_lower_function_counters(st: BuildState, name: Seq<char>, f: FnDef)
    ensures
        st.temps <= lower_function(st, name, f).0.temps,
        st.labels <= lower_function(st, name, f).0.labels,
{
    let ps = names_view(f.params@);
    lemma_with_params_counters(st, ps);
    lemma_lower_stmts_step(with_params(st, ps), f.body@);
}

/// A copy of a list of names.
fn copy_names(v: &Vec<String>) -> (r: Vec<String>)
    ensures
        names_view(r@) == names_view(v@),
{
    let mut r: Vec<String> = Vec::new();
    let mut i: usize = 0;
    while i < v.len()
        invariant
            0 <= i <= v.len(),
            names_view(r@) == names_view(v@).take(i as int),
        decreases v.len() - i,
    {
        let ghost prev = r@;
        r.push(v[i].clone());
        assert(names_view(r@) =~= names_view(prev).push(v@[i as int]@));
        assert(names_view(v@).take(i + 1) =~= names_view(v@).take(i as int).push(v@[i as int]@));
        i = i + 1;
    }
    assert(names_view(v@).take(v.len() as int) =~= names_view(v@));
    r
}

impl IrBuilder {
    /// Lowers `func` under `name`.
    fn build_function(&mut self, func: &FnDef, name: String) -> (r: Result<IrFunction, String>)
        requires
            lower_function(old(self).state(), name@, *func).0.fits(),
        ensures
            final(self).state() == lower_function(old(self).state(), name@, *func).0,
            match r {
                Ok(f) => lower_function(old(self).state(), name@, *func).1 == Ok::<FunctionView, Seq<char>>(f@),
                Err(m) => lower_function(old(self).state(), name@, *func).1 == Err::<FunctionView, Seq<char>>(m@),
            },
    {
        let ghost st = self.state();
        let ghost ps = names_view(func.params@);
        let mut i: usize = 0;
        assert(ps.take(0) =~= Seq::<Seq<char>>::empty());
        while i < func.params.len()
            invariant
                0 <= i <= func.params.len(),
                ps == names_view(func.params@),
                self.state() == with_params(st, ps.take(i as int)),
            decreases func.params.len() - i,
        {
            assert(ps.take(i + 1).drop_last() =~= ps.take(i as int));
            self.set_type(func.params[i].clone(), ValueType::Unknown);
            i = i + 1;
        }
        assert(ps.take(func.params.len() as int) =~= ps);
        let mut instructions: Vec<IrInstr> = Vec::new();
        assert(instrs_view(instructions@) =~= Seq::<InstrView>::empty());
        let r = self.build_statements(&func.body, &mut instructions);
        match r {
            Err(m) => {
                return Err(m);
            },
            Ok(()) => {},
        }
        let f = IrFunction {
            name: name,
            params: copy_names(&func.params),
            instructions: instructions,
            is_async: func.is_async,
            locals: Vec::new(),
        };
        assert(names_view(f.locals@) =~= Seq::<Seq<char>>::empty());
        assert(instrs_view(f.instructions@) =~= lower_stmts(with_params(st, ps), func.body@).1);
        Ok(f)
    }
}

} // verus!

verus! {

impl BuildState {
    /// The state after declaring the struct `name`.
    pub open spec fn with_struct(self, name: Seq<char>) -> BuildState {
        BuildState { structs: self.structs.insert(name), ..self }
    }

    /// The state after declaring the trait `name` with its required methods.
    pub open spec fn with_trait(self, name: Seq<char>, methods: Seq<Seq<char>>) -> BuildState {
        BuildState { traits: self.traits.insert(name, methods), ..self }
    }
}

/// The error for a second function of one name.
pub open spec fn duplicate_function_message(name: Seq<char>, file: Seq<char>) -> Seq<char> {
    "Duplicate function '"@ + name + "' (imported via "@ + file + ")"@
}

/// The error for an impl method whose generated name is taken.
pub open spec fn duplicate_method_message(name: Seq<char>, trait_name: Seq<char>, for_type: Seq<char>) -> Seq<char> {
    "Duplicate function '"@ + name + "' (generated from impl of "@ + trait_name + " for "@ + for_type + ")"@
}

/// The error for an impl that lacks a method its trait requires.
pub open spec fn missing_method_message(trait_name: Seq<char>, for_type: Seq<char>, method: Seq<char>) -> Seq<char> {
    "Impl of trait '"@ + trait_name + "' for '"@ + for_type + "' is missing method '"@ + method + "'"@
}

/// Whether one of `ms` is named `n`.
pub open spec fn provides(ms: Seq<FnDef>, n: Seq<char>) -> bool {
    exists|j: int| 0 <= j < ms.len() && #[trigger] ms[j].name@ == n
}

/// The first of `required` that none of `ms` provides, if any.
pub open spec fn first_missing(required: Seq<Seq<char>>, ms: Seq<FnDef>) -> Option<Seq<char>>
    decreases required.len(),
{
    if required.len() == 0 {
        None
    } else {
        match first_missing(required.drop_last(), ms) {
            Some(r) => Some(r),
            None => if provides(ms, required.last()) {
                None
            } else {
                Some(required.last())
            },
        }
    }
}

/// The name an impl method is lowered under: `<Type>_<method>`.
pub open spec fn method_function_name(for_type: Seq<char>, method: Seq<char>) -> Seq<char> {
    for_type + "_"@ + method
}

/// Lowering of the methods of an impl in order, each as a function under
/// its generated name, stopping at the first error.
pub open spec fn lower_methods(
    st: BuildState,
    prog: ProgramView,
    trait_name: Seq<char>,
    for_type: Seq<char>,
    ms: Seq<FnDef>,
) -> (BuildState, ProgramView, Option<Seq<char>>)
    decreases ms.len(),
{
    if ms.len() == 0 {
        (st, prog, None)
    } else {
        let (s1, p1, r1) = lower_methods(st, prog, trait_name, for_type, ms.drop_last());
        if r1 is Some {
            (s1, p1, r1)
        } else {
            let m = ms.last();
            let name = method_function_name(for_type, m.name@);
            if p1.functions.contains_key(name) {
                (s1, p1, Some(duplicate_method_message(name, trait_name, for_type)))
            } else {
                let (s2, r2) = lower_function(s1.with_known(name, m.params.len()), name, m);
                match r2 {
                    Err(e) => (s2, p1, Some(e)),
                    Ok(fv) => (s2, p1.with_function(name, fv), None),
                }
            }
        }
    }
}

/// Whether an item is one that names another file.
pub open spec fn names_file(item: TopLevel) -> bool {
    item is Import || item is Use || item is Hardwire
}

/// Processing of a top-level item that names no other file, read in the
/// file `file`: the builder's state after it, the program after it, and the
/// error it stops with, if any.
pub open spec fn lower_item(st: BuildState, prog: ProgramView, item: TopLevel, file: Seq<char>) -> (
    BuildState,
    ProgramView,
    Option<Seq<char>>,
) {
    match item {
        TopLevel::Function(f) => {
            if prog.functions.contains_key(f.name@) {
                (st, prog, Some(duplicate_function_message(f.name@, file)))
            } else {
                let (s1, r) = lower_function(st.with_known(f.name@, f.params.len()), f.name@, f);
                match r {
                    Err(e) => (s1, prog, Some(e)),
                    Ok(fv) => (s1, prog.with_function(f.name@, fv), None),
                }
            }
        },
        TopLevel::Statement(s) => {
            let (s1, code, r) = lower_stmt(st, s);
            (s1, ProgramView { global_code: prog.global_code + code, ..prog }, r)
        },
        TopLevel::Struct(sd) => (st.with_struct(sd.name@), prog, None),
        TopLevel::Trait(t) => (st.with_trait(t.name@, names_view(t.methods@)), prog, None),
        TopLevel::Impl(imp) => {
            let missing = if st.traits.contains_key(imp.trait_name@) {
                first_missing(st.traits[imp.trait_name@], imp.methods@)
            } else {
                None
            };
            match missing {
                Some(m) => (st, prog, Some(missing_method_message(imp.trait_name@, imp.for_type@, m))),
                None => lower_methods(st, prog, imp.trait_name@, imp.for_type@, imp.methods@),
            }
        },
        _ => (st, prog, None),
    }
}

/// Lowering a prefix of an impl's methods never moves a counter past where
/// lowering all of them ends.
pub proof fn lemma_lower_methods_prefix(
    st: BuildState,
    prog: ProgramView,
    trait_name: Seq<char>,
    for_type: Seq<char>,
    ms: Seq<FnDef>,
    k: int,
)
    requires
        0 <= k <= ms.len(),
    ensures
        lower_methods(st, prog, trait_name, for_type, ms.take(k)).0.temps <= lower_methods(st, prog, trait_name, for_type, ms).0.temps,
        lower_methods(st, prog, trait_name, for_type, ms.take(k)).0.labels <= lower_methods(st, prog, trait_name, for_type, ms).0.labels,
        lower_methods(st, prog, trait_name, for_type, ms.take(k)).2 is Some ==> lower_methods(st, prog, trait_name, for_type, ms)
            == lower_methods(st, prog, trait_name, for_type, ms.take(k)),
    decreases ms.len() - k,
{
    if k == ms.len() {
        assert(ms.take(k) =~= ms);
    } else {
        lemma_lower_methods_prefix(st, prog, trait_name, for_type, ms, k + 1);
        assert(ms.take(k + 1).drop_last() =~= ms.take(k));
        let (s1, p1, r1) = lower_methods(st, prog, trait_name, for_type, ms.take(k));
        let name = method_function_name(for_type, ms[k].name@);
        lemma_lower_function_counters(s1.with_known(name, ms[k].params.len()), name, ms[k]);
    }
}

} // verus!

verus! {

/// Whether one of `ms` is named `n`.
fn provides_method(ms: &Vec<FnDef>, n: &String) -> (r: bool)
    ensures
        r == provides(ms@, n@),
{
    let mut j: usize = 0;
    while j < ms.len()
        invariant
            0 <= j <= ms.len(),
            forall|i: int| 0 <= i < j ==> #[trigger] ms@[i].name@ != n@,
        decreases ms.len() - j,
    {
        if crate::text::same_text(ms[j].name.as_str(), n.as_str()) {
            return true;
        }
        j = j + 1;
    }
    false
}

impl IrBuilder {
    /// Forgets the enclosing `try` blocks, the declared traits and the known
    /// functions, as at the start of lowering a program. Counters, inferred
    /// types and declared structs are kept.
    pub fn begin_build(&mut self)
        ensures
            final(self).state() == (BuildState {
                try_stack: seq![],
                traits: Map::empty(),
                known: Map::empty(),
                ..old(self).state()
            }),
    {
        self.try_stack = Vec::new();
        self.trait_methods = NameMap::new();
        self.known_functions = NameMap::new();
        assert(self.state().try_stack =~= Seq::<(Seq<char>, Seq<char>)>::empty());
        assert(self.state().traits =~= Map::<Seq<char>, Seq<Seq<char>>>::empty());
        assert(self.state().known =~= Map::<Seq<char>, usize>::empty());
    }

    /// Records that `name` takes `arity` arguments.
    fn note_arity(&mut self, name: String, arity: usize)
        ensures
            final(self).state() == old(self).state().with_known(name@, arity),
    {
        self.known_functions.insert(name, arity);
    }

    /// The first method the trait of `imp`, if it is declared, requires and
    /// `imp` lacks.
    fn first_missing_method(&self, imp: &ImplBlock) -> (r: Option<String>)
        ensures
            r is Some <==> self.state().traits.contains_key(imp.trait_name@)
                && first_missing(self.state().traits[imp.trait_name@], imp.methods@) is Some,
            r is Some ==> first_missing(self.state().traits[imp.trait_name@], imp.methods@) == Some(r->0@),
    {
        match self.trait_methods.get(imp.trait_name.as_str()) {
            None => None,
            Some(required) => {
                let ghost req = names_view(required@);
                let mut i: usize = 0;
                assert(req.take(0) =~= Seq::<Seq<char>>::empty());
                assert(self.state().traits.contains_key(imp.trait_name@));
                assert(self.state().traits[imp.trait_name@] == req);
                while i < required.len()
                    invariant
                        0 <= i <= required.len(),
                        req == names_view(required@),
                        self.state().traits.contains_key(imp.trait_name@),
                        self.state().traits[imp.trait_name@] == req,
                        first_missing(req.take(i as int), imp.methods@) is None,
                    decreases required.len() - i,
                {
                    assert(req.take(i + 1).drop_last() =~= req.take(i as int));
                    assert(req.take(i + 1).last() == required@[i as int]@);
                    if !provides_method(&imp.methods, &required[i]) {
                        proof {
                            lemma_first_missing_prefix(req, imp.methods@, i + 1);
                        }
                        return Some(required[i].clone());
                    }
                    i = i + 1;
                }
                assert(req.take(required.len() as int) =~= req);
                None
            },
        }
    }

    /// Lowers the methods of `imp` into `program`.
    fn build_methods(&mut self, imp: &ImplBlock, program: &mut IrProgram) -> (r: Result<(), String>)
        requires
            lower_methods(old(self).state(), old(program)@, imp.trait_name@, imp.for_type@, imp.methods@).0.fits(),
        ensures
            ({
                let x = lower_methods(old(self).state(), old(program)@, imp.trait_name@, imp.for_type@, imp.methods@);
                &&& final(self).state() == x.0
                &&& final(program)@ == x.1
                &&& match r {
                    Ok(_) => x.2 is None,
                    Err(m) => x.2 == Some(m@),
                }
            }),
    {
        let ghost st = self.state();
        let ghost p0 = program@;
        let ghost tn = imp.trait_name@;
        let ghost ty = imp.for_type@;
        let ghost ms = imp.methods@;
        let mut i: usize = 0;
        assert(ms.take(0) =~= Seq::<FnDef>::empty());
        while i < imp.methods.len()
            invariant
                0 <= i <= imp.methods.len(),
                st == old(self).state(),
                p0 == old(program)@,
                tn == imp.trait_name@,
                ty == imp.for_type@,
                ms == imp.methods@,
                lower_methods(st, p0, tn, ty, ms).0.fits(),
                self.state() == lower_methods(st, p0, tn, ty, ms.take(i as int)).0,
                program@ == lower_methods(st, p0, tn, ty, ms.take(i as int)).1,
                lower_methods(st, p0, tn, ty, ms.take(i as int)).2 is None,
            decreases imp.methods.len() - i,
        {
            proof {
                assert(ms.take(i + 1).drop_last() =~= ms.take(i as int));
                lemma_lower_methods_prefix(st, p0, tn, ty, ms, i + 1);
            }
            let m = &imp.methods[i];
            let with_sep = concat(imp.for_type.as_str(), "_");
            let name = concat(with_sep.as_str(), m.name.as_str());
            if program.functions.contains_key(name.as_str()) {
                let a = concat("Duplicate function '", name.as_str());
                let b = concat(a.as_str(), "' (generated from impl of ");
                let c = concat(b.as_str(), imp.trait_name.as_str());
                let d = concat(c.as_str(), " for ");
                let e = concat(d.as_str(), imp.for_type.as_str());
                let msg = concat(e.as_str(), ")");
                return Err(msg);
            }
            self.note_arity(name.clone(), m.params.len());
            let built = self.build_function(m, name.clone());
            match built {
                Err(e) => {
                    return Err(e);
                },
                Ok(f) => {
                    let ghost fv = f@;
                    let ghost before = program@;
                    program.functions.insert(name, f);
                    assert(program@.functions =~= before.functions.insert(method_function_name(ty, m.name@), fv));
                },
            }
            i = i + 1;
        }
        assert(ms.take(imp.methods.len() as int) =~= ms);
        Ok(())
    }

    /// Lowers a top-level item that names no other file, read in the file
    /// `file`, into `program`.
    pub fn process_item(&mut self, item: &TopLevel, file: &str, program: &mut IrProgram) -> (r: Result<(), String>)
        requires
            !names_file(*item),
            lower_item(old(self).state(), old(program)@, *item, file@).0.fits(),
        ensures
            ({
                let x = lower_item(old(self).state(), old(program)@, *item, file@);
                &&& final(self).state() == x.0
                &&& final(program)@ == x.1
                &&& match r {
                    Ok(_) => x.2 is None,
                    Err(m) => x.2 == Some(m@),
                }
            }),
    {
        match item {
            TopLevel::Function(f) => {
                if program.functions.contains_key(f.name.as_str()) {
                    let a = concat("Duplicate function '", f.name.as_str());
                    let b = concat(a.as_str(), "' (imported via ");
                    let c = concat(b.as_str(), file);
                    let msg = concat(c.as_str(), ")");
                    return Err(msg);
                }
                self.note_arity(f.name.clone(), f.params.len());
                let built = self.build_function(f, f.name.clone());
                match built {
                    Err(e) => Err(e),
                    Ok(func) => {
                        let ghost fv = func@;
                        let ghost before = program@;
                        program.functions.insert(f.name.clone(), func);
                        assert(program@.functions =~= before.functions.insert(f.name@, fv));
                        Ok(())
                    },
                }
            },
            TopLevel::Statement(s) => {
                let ghost before = program@;
                let r = self.build_statement(s, &mut program.global_code);
                assert(program@.functions =~= before.functions);
                r
            },
            TopLevel::Struct(sd) => {
                self.structs.insert(sd.name.clone(), ());
                assert(self.state().structs =~= old(self).state().structs.insert(sd.name@));
                Ok(())
            },
            TopLevel::Trait(t) => {
                let methods = copy_names(&t.methods);
                let ghost mv = names_view(methods@);
                self.trait_methods.insert(t.name.clone(), methods);
                assert(self.state().traits =~= old(self).state().traits.insert(t.name@, mv));
                Ok(())
            },
            TopLevel::Impl(imp) => {
                match self.first_missing_method(imp) {
                    Some(m) => {
                        let a = concat("Impl of trait '", imp.trait_name.as_str());
                        let b = concat(a.as_str(), "' for '");
                        let c = concat(b.as_str(), imp.for_type.as_str());
                        let d = concat(c.as_str(), "' is missing method '");
                        let e = concat(d.as_str(), m.as_str());
                        let msg = concat(e.as_str(), "'");
                        Err(msg)
                    },
                    None => self.build_methods(imp, program),
                }
            },
            _ => {
                proof {
                    assert(false);
                }
                Ok(())
            },
        }
    }
}

/// The first missing method of a prefix that has one is the first missing
/// method of the longer list.
pub proof fn lemma_first_missing_prefix(req: Seq<Seq<char>>, ms: Seq<FnDef>, k: int)
    requires
        0 <= k <= req.len(),
        first_missing(req.take(k), ms) is Some,
    ensures
        first_missing(req, ms) == first_missing(req.take(k), ms),
    decreases req.len() - k,
{
    if k == req.len() {
        assert(req.take(k) =~= req);
    } else {
        assert(req.take(k + 1).drop_last() =~= req.take(k));
        lemma_first_missing_prefix(req, ms, k + 1);
    }
}

} // verus!

verus! {

/// Temporaries taken at different counts have different names, labels
/// likewise, and no temporary is named like a label.
pub proof fn law_fresh_names_distinct(a: nat, b: nat)
    ensures
        temp_name(a) == temp_name(b) ==> a == b,
        label_name(a) == label_name(b) ==> a == b,
        temp_name(a) != label_name(b),
{
    reveal_strlit("t");
    reveal_strlit("L");
    if temp_name(a) == temp_name(b) {
        assert(decimal(a) =~= temp_name(a).subrange(1, temp_name(a).len() as int));
        assert(decimal(b) =~= temp_name(b).subrange(1, temp_name(b).len() as int));
        lemma_decimal_injective(a, b);
    }
    if label_name(a) == label_name(b) {
        assert(decimal(a) =~= label_name(a).subrange(1, label_name(a).len() as int));
        assert(decimal(b) =~= label_name(b).subrange(1, label_name(b).len() as int));
        lemma_decimal_injective(a, b);
    }
    assert(temp_name(a)[0] == 't');
    assert(label_name(b)[0] == 'L');
}

/// The slot that holds an expression's value is either the variable the
/// expression names or a temporary taken while lowering it, so it is never
/// a temporary taken before.
pub proof fn law_expr_slot_is_new_or_named(st: BuildState, e: Expr)
    ensures
        ({
            let (s1, code, t) = lower_expr(st, e);
            ||| (e is Identifier && t == e->Identifier_0@)
            ||| exists|k: nat| st.temps <= k < s1.temps && t == #[trigger] temp_name(k)
        }),
{
    reveal(lower_expr);
    lemma_lower_expr_step(st, e);
    let (s1, code, t) = lower_expr(st, e);
    match e {
        Expr::Identifier(name) => {
            if t != name@ {
                assert(t == temp_name(st.temps));
            }
        },
        Expr::Add(l, r) | Expr::Sub(l, r) | Expr::Mul(l, r) | Expr::Div(l, r) | Expr::BitAnd(l, r)
        | Expr::BitOr(l, r) | Expr::BitXor(l, r) | Expr::Shl(l, r) | Expr::Shr(l, r) | Expr::Eq(l, r)
        | Expr::Ne(l, r) | Expr::Lt(l, r) | Expr::Gt(l, r) | Expr::And(l, r) | Expr::Or(l, r)
        | Expr::Range(l, r) | Expr::Index(l, r) => {
            lemma_lower_expr_step(st, *l);
            let s2 = lower_expr(lower_expr(st, *l).0, *r).0;
            lemma_lower_expr_step(lower_expr(st, *l).0, *r);
            assert(t == temp_name(s2.temps));
        },
        Expr::Le(l, r) | Expr::Ge(l, r) => {
            lemma_lower_expr_step(st, *l);
            let s2 = lower_expr(lower_expr(st, *l).0, *r).0;
            lemma_lower_expr_step(lower_expr(st, *l).0, *r);
            assert(t == temp_name(s2.temps + 1));
        },
        Expr::Not(x) | Expr::BitNot(x) | Expr::Neg(x) | Expr::Await(x) | Expr::Ask(x) | Expr::Member(x, _) => {
            lemma_lower_expr_step(st, *x);
            assert(t == temp_name(lower_expr(st, *x).0.temps));
        },
        Expr::Call(_, args) | Expr::List(args) => {
            lemma_lower_exprs_step(st, args@);
            assert(t == temp_name(lower_exprs(st, args@).0.temps));
        },
        Expr::MethodCall(recv, _, args) => {
            lemma_lower_expr_step(st, *recv);
            let s2 = lower_exprs(lower_expr(st, *recv).0, args@).0;
            lemma_lower_exprs_step(lower_expr(st, *recv).0, args@);
            assert(t == temp_name(s2.temps));
        },
        Expr::Mapping(entries) => {
            let m = temp_name(st.temps);
            lemma_lower_entries_step(st.next_temp().with_type(m, TypeView::Mapping), entries@, m);
            assert(t == temp_name(st.temps));
        },
        _ => {
            assert(t == temp_name(st.temps));
        },
    }
}

/// A binary expression is lowered operands first, the left one's code
/// before the right one's, and then one instruction of the same operator
/// whose left operand is the slot of the left expression and whose right
/// operand is the slot of the right one, writing the expression's slot: `a
/// / b` divides `a` by `b`, never `b` by `a`. `a <= b` is `not (a > b)` and
/// `a >= b` is `not (a < b)`, with the operands in the same order.
pub proof fn law_binary_operands_in_order(st: BuildState, l: Box<Expr>, r: Box<Expr>)
    ensures
        ({
            let (s1, i1, a) = lower_expr(st, *l);
            let (s2, i2, b) = lower_expr(s1, *r);
            let operands = i1 + i2;
            &&& lower_expr(st, Expr::Add(l, r)).1 == operands + seq![InstrView::Add { dest: lower_expr(st, Expr::Add(l, r)).2, left: a, right: b }]
            &&& lower_expr(st, Expr::Sub(l, r)).1 == operands + seq![InstrView::Sub { dest: lower_expr(st, Expr::Sub(l, r)).2, left: a, right: b }]
            &&& lower_expr(st, Expr::Mul(l, r)).1 == operands + seq![InstrView::Mul { dest: lower_expr(st, Expr::Mul(l, r)).2, left: a, right: b }]
            &&& lower_expr(st, Expr::Div(l, r)).1 == operands + seq![InstrView::Div { dest: lower_expr(st, Expr::Div(l, r)).2, left: a, right: b }]
            &&& lower_expr(st, Expr::BitAnd(l, r)).1 == operands + seq![InstrView::BitAnd { dest: lower_expr(st, Expr::BitAnd(l, r)).2, left: a, right: b }]
            &&& lower_expr(st, Expr::BitOr(l, r)).1 == operands + seq![InstrView::BitOr { dest: lower_expr(st, Expr::BitOr(l, r)).2, left: a, right: b }]
            &&& lower_expr(st, Expr::BitXor(l, r)).1 == operands + seq![InstrView::BitXor { dest: lower_expr(st, Expr::BitXor(l, r)).2, left: a, right: b }]
            &&& lower_expr(st, Expr::Shl(l, r)).1 == operands + seq![InstrView::Shl { dest: lower_expr(st, Expr::Shl(l, r)).2, left: a, right: b }]
            &&& lower_expr(st, Expr::Shr(l, r)).1 == operands + seq![InstrView::Shr { dest: lower_expr(st, Expr::Shr(l, r)).2, left: a, right: b }]
            &&& lower_expr(st, Expr::Eq(l, r)).1 == operands + seq![InstrView::Eq { dest: lower_expr(st, Expr::Eq(l, r)).2, left: a, right: b }]
            &&& lower_expr(st, Expr::Ne(l, r)).1 == operands + seq![InstrView::Ne { dest: lower_expr(st, Expr::Ne(l, r)).2, left: a, right: b }]
            &&& lower_expr(st, Expr::Lt(l, r)).1 == operands + seq![InstrView::Lt { dest: lower_expr(st, Expr::Lt(l, r)).2, left: a, right: b }]
            &&& lower_expr(st, Expr::Gt(l, r)).1 == operands + seq![InstrView::Gt { dest: lower_expr(st, Expr::Gt(l, r)).2, left: a, right: b }]
            &&& lower_expr(st, Expr::And(l, r)).1 == operands + seq![InstrView::LogicAnd { dest: lower_expr(st, Expr::And(l, r)).2, left: a, right: b }]
            &&& lower_expr(st, Expr::Or(l, r)).1 == operands + seq![InstrView::LogicOr { dest: lower_expr(st, Expr::Or(l, r)).2, left: a, right: b }]
            &&& lower_expr(st, Expr::Le(l, r)).1 == operands + seq![
                InstrView::Gt { dest: temp_name(s2.temps), left: a, right: b },
                InstrView::LogicNot { dest: lower_expr(st, Expr::Le(l, r)).2, src: temp_name(s2.temps) },
            ]
            &&& lower_expr(st, Expr::Ge(l, r)).1 == operands + seq![
                InstrView::Lt { dest: temp_name(s2.temps), left: a, right: b },
                InstrView::LogicNot { dest: lower_expr(st, Expr::Ge(l, r)).2, src: temp_name(s2.temps) },
            ]
            &&& lower_expr(st, Expr::Index(l, r)).1 == operands + seq![
                InstrView::GetIndex { dest: lower_expr(st, Expr::Index(l, r)).2, src: a, index: b },
            ]
            &&& lower_expr(st, Expr::Range(l, r)).1 == operands + seq![
                InstrView::Call { dest: Some(lower_expr(st, Expr::Range(l, r)).2), func: "range"@, args: seq![a, b] },
            ]
        }),
{
    reveal(lower_expr);
}

/// A unary expression is lowered operand first, then its operator applied
/// to the operand's slot: `-x` is `0 - x` (zero on the left), `not x` a
/// logical negation and `~x` a bit negation of that slot; a literal is
/// loaded as the constant it spells.
pub proof fn law_unary_lowering(st: BuildState, x: Box<Expr>, n: u64, b: bool)
    ensures
        ({
            let (s1, i1, a) = lower_expr(st, *x);
            &&& lower_expr(st, Expr::Neg(x)).1 == i1 + seq![
                InstrView::LoadConst { dest: temp_name(s1.temps + 1), value: ConstView::Number(0u64) },
                InstrView::Sub { dest: lower_expr(st, Expr::Neg(x)).2, left: temp_name(s1.temps + 1), right: a },
            ]
            &&& lower_expr(st, Expr::Not(x)).1 == i1 + seq![InstrView::LogicNot { dest: lower_expr(st, Expr::Not(x)).2, src: a }]
            &&& lower_expr(st, Expr::BitNot(x)).1 == i1 + seq![InstrView::BitNot { dest: lower_expr(st, Expr::BitNot(x)).2, src: a }]
            &&& lower_expr(st, Expr::Number(n)).1 == seq![InstrView::LoadConst { dest: lower_expr(st, Expr::Number(n)).2, value: ConstView::Number(n) }]
            &&& lower_expr(st, Expr::Bool(b)).1 == seq![InstrView::LoadConst { dest: lower_expr(st, Expr::Bool(b)).2, value: ConstView::Bool(b) }]
        }),
{
    reveal(lower_expr);
}

} // verus!
