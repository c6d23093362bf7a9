//! The JIT's symbol table: scoped variables, functions and a type cache.

use vstd::prelude::*;
use crate::name_map::{NameMap, map_of, insert_entry};
use crate::text::concat;

verus! {

/// What kind of symbol a name denotes.
#[derive(Debug, Clone, Copy, PartialEq, Eq, Structural)]
pub enum SymbolType {
    Variable,
    Function,
    Parameter,
    Global,
    Local,
}

/// The inferred type of a value.
#[derive(Debug, Clone, Copy, PartialEq, Eq, Structural)]
pub enum ValueType {
    Int,
    Float,
    String,
    Bool,
    List,
    Mapping,
    Object,
    Function,
    Unknown,
}

/// Where a variable's value is kept.
#[derive(Debug, Clone, Copy, PartialEq, Eq, Structural)]
pub enum SymbolLocation {
    Register(u8),
    Stack(i32),
    Global(u64),
}

/// A declared variable.
#[derive(Debug, Clone)]
pub struct Symbol {
    pub name: String,
    pub sym_type: SymbolType,
    pub value_type: ValueType,
    pub scope_level: usize,
    pub location: Option<SymbolLocation>,
    pub is_mutable: bool,
    pub reference_count: usize,
}

/// A declared function.
#[derive(Debug, Clone)]
pub struct FunctionSymbol {
    pub name: String,
    pub param_count: usize,
    pub param_types: Vec<ValueType>,
    pub return_type: ValueType,
    pub address: Option<u64>,
    pub is_compiled: bool,
    pub call_count: usize,
}

/// A copy of a symbol.
pub fn copy_symbol(s: &Symbol) -> (r: Symbol)
    ensures
        r == *s,
{
    Symbol {
        name: s.name.clone(),
        sym_type: s.sym_type,
        value_type: s.value_type,
        scope_level: s.scope_level,
        location: s.location,
        is_mutable: s.is_mutable,
        reference_count: s.reference_count,
    }
}

/// A copy of a list of value types.
pub fn copy_types(v: &Vec<ValueType>) -> (r: Vec<ValueType>)
    ensures
        r@ == v@,
{
    let mut r: Vec<ValueType> = Vec::new();
    let mut i: usize = 0;
    while i < v.len()
        invariant
            0 <= i <= v.len(),
            r@ == v@.take(i as int),
        decreases v.len() - i,
    {
        r.push(v[i]);
        assert(v@.take(i + 1) =~= v@.take(i as int).push(v@[i as int]));
        i = i + 1;
    }
    assert(v@.take(v@.len() as int) =~= v@);
    r
}

/// A copy of a function symbol.
pub fn copy_function(f: &FunctionSymbol) -> (r: FunctionSymbol)
    ensures
        r.name == f.name,
        r.param_count == f.param_count,
        r.param_types@ == f.param_types@,
        r.return_type == f.return_type,
        r.address == f.address,
        r.is_compiled == f.is_compiled,
        r.call_count == f.call_count,
{
    FunctionSymbol {
        name: f.name.clone(),
        param_count: f.param_count,
        param_types: copy_types(&f.param_types),
        return_type: f.return_type,
        address: f.address,
        is_compiled: f.is_compiled,
        call_count: f.call_count,
    }
}

/// A function symbol that only holds a place while an entry is updated.
fn placeholder_function() -> FunctionSymbol {
    FunctionSymbol {
        name: String::new(),
        param_count: 0,
        param_types: Vec::new(),
        return_type: ValueType::Unknown,
        address: None,
        is_compiled: false,
        call_count: 0,
    }
}

/// The innermost scope at or below `i` that declares `name`, if any.
pub open spec fn scope_of(scopes: Seq<Map<Seq<char>, Symbol>>, i: int, name: Seq<char>) -> Option<int>
    decreases i + 1,
{
    if i < 0 {
        None
    } else if scopes[i].contains_key(name) {
        Some(i)
    } else {
        scope_of(scopes, i - 1, name)
    }
}

/// The names in `pairs` whose symbols have at least `threshold` references, in order.
pub open spec fn hot_in(pairs: Seq<(Seq<char>, Symbol)>, threshold: usize) -> Seq<Seq<char>>
    decreases pairs.len(),
{
    if pairs.len() == 0 {
        Seq::empty()
    } else {
        let rest = hot_in(pairs.drop_last(), threshold);
        if pairs.last().1.reference_count >= threshold {
            rest.push(pairs.last().0)
        } else {
            rest
        }
    }
}

/// The hot names of scopes `0..n`, scope by scope.
pub open spec fn hot_upto(scopes: Seq<Seq<(Seq<char>, Symbol)>>, n: int, threshold: usize) -> Seq<Seq<char>>
    decreases n,
{
    if n <= 0 {
        Seq::empty()
    } else {
        hot_upto(scopes, n - 1, threshold) + hot_in(scopes[n - 1], threshold)
    }
}

/// The names in `pairs` whose functions were called at least `threshold` times, in order.
pub open spec fn hot_fns_in(pairs: Seq<(Seq<char>, FunctionSymbol)>, threshold: usize) -> Seq<Seq<char>>
    decreases pairs.len(),
{
    if pairs.len() == 0 {
        Seq::empty()
    } else {
        let rest = hot_fns_in(pairs.drop_last(), threshold);
        if pairs.last().1.call_count >= threshold {
            rest.push(pairs.last().0)
        } else {
            rest
        }
    }
}

/// Scoped variables, functions and the type cache.
pub struct SymbolTable {
    scopes: Vec<NameMap<Symbol>>,
    current_scope: usize,
    functions: NameMap<FunctionSymbol>,
    type_cache: NameMap<ValueType>,
}

impl SymbolTable {
    /// The variables of each scope, outermost first (scopes above the
    /// current one are empty).
    pub open spec fn scope_maps(&self) -> Seq<Map<Seq<char>, Symbol>> {
        self.scope_entries().map_values(|p: Seq<(Seq<char>, Symbol)>| map_of(p))
    }

    /// The entries of each scope, in declaration order.
    pub closed spec fn scope_entries(&self) -> Seq<Seq<(Seq<char>, Symbol)>> {
        self.scopes@.map_values(|m: NameMap<Symbol>| m.pairs())
    }

    /// The index of the current scope (0 is the global scope).
    pub closed spec fn current(&self) -> int {
        self.current_scope as int
    }

    /// The declared functions.
    pub closed spec fn function_map(&self) -> Map<Seq<char>, FunctionSymbol> {
        self.functions@
    }

    /// The declared functions, in declaration order.
    pub closed spec fn function_entries(&self) -> Seq<(Seq<char>, FunctionSymbol)> {
        self.functions.pairs()
    }

    /// The last declared type of each name.
    pub closed spec fn types(&self) -> Map<Seq<char>, ValueType> {
        self.type_cache@
    }

    /// The current scope is one of the scopes.
    pub open spec fn wf(&self) -> bool {
        self.current() < self.scope_entries().len()
    }

    /// The symbol that `name` denotes from the current scope, if any.
    pub open spec fn visible(&self, name: Seq<char>) -> Option<Symbol> {
        match scope_of(self.scope_maps(), self.current(), name) {
            Some(i) => Some(self.scope_maps()[i][name]),
            None => None,
        }
    }

    /// A table with only the (empty) global scope.
    pub fn new() -> (t: Self)
        ensures
            t.wf(),
            t.current() == 0,
            t.scope_maps() == seq![Map::<Seq<char>, Symbol>::empty()],
            t.scope_entries() == seq![Seq::<(Seq<char>, Symbol)>::empty()],
            t.function_map() == Map::<Seq<char>, FunctionSymbol>::empty(),
            t.types() == Map::<Seq<char>, ValueType>::empty(),
    {
        let mut scopes: Vec<NameMap<Symbol>> = Vec::new();
        scopes.push(NameMap::new());
        let t = Self { scopes, current_scope: 0, functions: NameMap::new(), type_cache: NameMap::new() };
        assert(t.scope_entries() =~= seq![Seq::<(Seq<char>, Symbol)>::empty()]);
        assert(t.scope_maps() =~= seq![Map::<Seq<char>, Symbol>::empty()]);
        t
    }

    /// Opens a new, empty scope inside the current one.
    pub fn enter_scope(&mut self)
        requires
            old(self).wf(),
        ensures
            final(self).wf(),
            final(self).current() == old(self).current() + 1,
            final(self).scope_maps().len() == if old(self).current() + 1 < old(self).scope_maps().len() {
                old(self).scope_maps().len()
            } else {
                old(self).scope_maps().len() + 1
            },
            final(self).scope_maps()[final(self).current()] == Map::<Seq<char>, Symbol>::empty(),
            forall|i: int| 0 <= i <= old(self).current() ==> #[trigger] final(self).scope_maps()[i] == old(self).scope_maps()[i],
            final(self).scope_entries()[final(self).current()] == Seq::<(Seq<char>, Symbol)>::empty(),
            forall|i: int| 0 <= i <= old(self).current() ==> #[trigger] final(self).scope_entries()[i] == old(self).scope_entries()[i],
            final(self).function_map() == old(self).function_map(),
            final(self).types() == old(self).types(),
    {
        let n = self.scopes.len();
        self.current_scope = self.current_scope + 1;
        if self.current_scope >= self.scopes.len() {
            self.scopes.push(NameMap::new());
        } else {
            let mut fresh: NameMap<Symbol> = NameMap::new();
            std::mem::swap(&mut fresh, &mut self.scopes[self.current_scope]);
        }
    }

    /// Leaves the current scope, forgetting its variables; the global scope
    /// is never left.
    pub fn exit_scope(&mut self)
        requires
            old(self).wf(),
        ensures
            final(self).wf(),
            old(self).current() > 0 ==> {
                &&& final(self).current() == old(self).current() - 1
                &&& final(self).scope_maps() == old(self).scope_maps().update(old(self).current(), Map::<Seq<char>, Symbol>::empty())
                &&& final(self).scope_entries() == old(self).scope_entries().update(old(self).current(), Seq::<(Seq<char>, Symbol)>::empty())
            },
            old(self).current() == 0 ==> final(self).current() == 0 && final(self).scope_entries() == old(self).scope_entries(),
            final(self).function_map() == old(self).function_map(),
            final(self).types() == old(self).types(),
    {
        if self.current_scope > 0 {
            let ghost before = self.scopes@;
            let mut fresh: NameMap<Symbol> = NameMap::new();
            std::mem::swap(&mut fresh, &mut self.scopes[self.current_scope]);
            assert(self.scope_entries() =~= old(self).scope_entries().update(old(self).current(), Seq::<(Seq<char>, Symbol)>::empty()));
            assert(self.scope_maps() =~= old(self).scope_maps().update(old(self).current(), Map::<Seq<char>, Symbol>::empty()));
            self.current_scope = self.current_scope - 1;
        }
    }

    /// Declares `name` in the current scope, failing with
    /// `Variable '<name>' already declared in this scope` when it is already there.
    pub fn declare_variable(&mut self, name: String, value_type: ValueType, location: Option<SymbolLocation>) -> (r: Result<(), String>)
        requires
            old(self).wf(),
        ensures
            final(self).wf(),
            final(self).current() == old(self).current(),
            final(self).function_map() == old(self).function_map(),
            match r {
                Ok(()) => {
                    &&& !old(self).scope_maps()[old(self).current()].contains_key(name@)
                    &&& final(self).scope_maps() == old(self).scope_maps().update(
                        old(self).current(),
                        old(self).scope_maps()[old(self).current()].insert(name@, Symbol {
                            name: name,
                            sym_type: if old(self).current() == 0 { SymbolType::Global } else { SymbolType::Local },
                            value_type: value_type,
                            scope_level: old(self).current() as usize,
                            location: location,
                            is_mutable: true,
                            reference_count: 0,
                        }),
                    )
                    &&& final(self).scope_entries() == old(self).scope_entries().update(
                        old(self).current(),
                        old(self).scope_entries()[old(self).current()].push((name@, Symbol {
                            name: name,
                            sym_type: if old(self).current() == 0 { SymbolType::Global } else { SymbolType::Local },
                            value_type: value_type,
                            scope_level: old(self).current() as usize,
                            location: location,
                            is_mutable: true,
                            reference_count: 0,
                        })),
                    )
                    &&& final(self).types() == old(self).types().insert(name@, value_type)
                },
                Err(msg) => {
                    &&& old(self).scope_maps()[old(self).current()].contains_key(name@)
                    &&& msg@ == "Variable '"@ + name@ + "' already declared in this scope"@
                    &&& *final(self) == *old(self)
                },
            },
    {
        let cur = self.current_scope;
        if self.scopes[cur].get(name.as_str()).is_some() {
            let msg = concat(concat("Variable '", name.as_str()).as_str(), "' already declared in this scope");
            return Err(msg);
        }
        let sym_type = if cur == 0 { SymbolType::Global } else { SymbolType::Local };
        let symbol = Symbol {
            name: name.clone(),
            sym_type,
            value_type,
            scope_level: cur,
            location,
            is_mutable: true,
            reference_count: 0,
        };
        let ghost before = self.scope_maps();
        let ghost before_entries = self.scope_entries();
        let key = name.clone();
        let mut scope: NameMap<Symbol> = NameMap::new();
        std::mem::swap(&mut scope, &mut self.scopes[cur]);
        scope.insert(key, symbol);
        std::mem::swap(&mut scope, &mut self.scopes[cur]);
        assert(self.scope_entries() =~= before_entries.update(cur as int, before_entries[cur as int].push((name@, symbol))));
        assert(self.scope_maps() =~= before.update(cur as int, before[cur as int].insert(name@, symbol)));
        self.type_cache.insert(name, value_type);
        Ok(())
    }

    /// The index of the innermost scope that declares `name`.
    fn find_scope(&self, name: &str) -> (r: Option<usize>)
        requires
            self.wf(),
        ensures
            match r {
                Some(i) => scope_of(self.scope_maps(), self.current(), name@) == Some(i as int)
                    && i <= self.current() && self.scope_maps()[i as int].contains_key(name@),
                None => scope_of(self.scope_maps(), self.current(), name@) is None,
            },
    {
        proof { lemma_scope_of_range(self.scope_maps(), self.current(), name@); }
        let n = self.scopes.len();
        let mut i: usize = self.current_scope + 1;
        while i > 0
            invariant
                0 <= i <= self.current_scope + 1,
                self.wf(),
                scope_of(self.scope_maps(), self.current(), name@) == scope_of(self.scope_maps(), i - 1, name@),
            decreases i,
        {
            if self.scopes[i - 1].get(name).is_some() {
                return Some(i - 1);
            }
            i = i - 1;
        }
        None
    }

    /// The symbol that `name` denotes, searching from the current scope outward.
    pub fn lookup(&self, name: &str) -> (r: Option<&Symbol>)
        requires
            self.wf(),
        ensures
            match r {
                Some(s) => self.visible(name@) == Some(*s),
                None => self.visible(name@) is None,
            },
    {
        match self.find_scope(name) {
            Some(i) => self.scopes[i].get(name),
            None => None,
        }
    }

    /// Replaces the symbol that `name` denotes (same scope search as `lookup`).
    fn replace_visible(&mut self, name: &str, i: usize, sym: Symbol)
        requires
            old(self).wf(),
            scope_of(old(self).scope_maps(), old(self).current(), name@) == Some(i as int),
        ensures
            final(self).wf(),
            final(self).current() == old(self).current(),
            final(self).scope_maps() == old(self).scope_maps().update(i as int, old(self).scope_maps()[i as int].insert(name@, sym)),
            final(self).scope_entries() == old(self).scope_entries().update(i as int, insert_entry(old(self).scope_entries()[i as int], name@, sym)),
            final(self).function_map() == old(self).function_map(),
            final(self).types() == old(self).types(),
    {
        proof { lemma_scope_of_range(old(self).scope_maps(), old(self).current(), name@); }
        let ghost before = self.scope_maps();
        let ghost before_entries = self.scope_entries();
        let mut scope: NameMap<Symbol> = NameMap::new();
        std::mem::swap(&mut scope, &mut self.scopes[i]);
        scope.insert(name.to_owned(), sym);
        std::mem::swap(&mut scope, &mut self.scopes[i]);
        assert(self.scope_entries() =~= before_entries.update(i as int, insert_entry(before_entries[i as int], name@, sym)));
        assert(self.scope_maps() =~= before.update(i as int, before[i as int].insert(name@, sym)));
    }

    /// Records where `name`'s value lives, failing with
    /// `Variable '<name>' not found` when no scope declares it.
    pub fn update_location(&mut self, name: &str, location: SymbolLocation) -> (r: Result<(), String>)
        requires
            old(self).wf(),
        ensures
            final(self).wf(),
            final(self).current() == old(self).current(),
            final(self).function_map() == old(self).function_map(),
            final(self).types() == old(self).types(),
            match r {
                Ok(()) => match scope_of(old(self).scope_maps(), old(self).current(), name@) {
                    Some(i) => final(self).scope_maps() == old(self).scope_maps().update(
                        i,
                        old(self).scope_maps()[i].insert(name@, Symbol { location: Some(location), ..old(self).scope_maps()[i][name@] }),
                    ) && final(self).scope_entries() == old(self).scope_entries().update(
                        i,
                        insert_entry(old(self).scope_entries()[i], name@, Symbol { location: Some(location), ..old(self).scope_maps()[i][name@] }),
                    ),
                    None => false,
                },
                Err(msg) => {
                    &&& old(self).visible(name@) is None
                    &&& msg@ == "Variable '"@ + name@ + "' not found"@
                    &&& *final(self) == *old(self)
                },
            },
    {
        match self.find_scope(name) {
            Some(i) => {
                let mut sym = copy_symbol(self.scopes[i].get(name).unwrap());
                sym.location = Some(location);
                self.replace_visible(name, i, sym);
                Ok(())
            },
            None => {
                let msg = concat(concat("Variable '", name).as_str(), "' not found");
                Err(msg)
            },
        }
    }

    /// Counts one more reference to the symbol that `name` denotes, if any.
    pub fn increment_reference(&mut self, name: &str)
        requires
            old(self).wf(),
            old(self).visible(name@) matches Some(s) ==> s.reference_count < usize::MAX,
        ensures
            final(self).wf(),
            final(self).current() == old(self).current(),
            final(self).function_map() == old(self).function_map(),
            final(self).types() == old(self).types(),
            match scope_of(old(self).scope_maps(), old(self).current(), name@) {
                Some(i) => final(self).scope_maps() == old(self).scope_maps().update(
                    i,
                    old(self).scope_maps()[i].insert(
                        name@,
                        Symbol {
                            reference_count: (old(self).scope_maps()[i][name@].reference_count + 1) as usize,
                            ..old(self).scope_maps()[i][name@]
                        },
                    ),
                ) && final(self).scope_entries() == old(self).scope_entries().update(
                    i,
                    insert_entry(
                        old(self).scope_entries()[i],
                        name@,
                        Symbol {
                            reference_count: (old(self).scope_maps()[i][name@].reference_count + 1) as usize,
                            ..old(self).scope_maps()[i][name@]
                        },
                    ),
                ),
                None => *final(self) == *old(self),
            },
    {
        match self.find_scope(name) {
            Some(i) => {
                let mut sym = copy_symbol(self.scopes[i].get(name).unwrap());
                sym.reference_count = sym.reference_count + 1;
                self.replace_visible(name, i, sym);
            },
            None => {},
        }
    }

    /// The last type declared for `name`, if any.
    pub fn get_type(&self, name: &str) -> (r: Option<ValueType>)
        ensures
            match r {
                Some(t) => self.types().contains_key(name@) && t == self.types()[name@],
                None => !self.types().contains_key(name@),
            },
    {
        match self.type_cache.get(name) {
            Some(t) => Some(*t),
            None => None,
        }
    }

    /// Declares a function, failing with `Function '<name>' already declared`
    /// when its name is taken.
    pub fn declare_function(&mut self, func: FunctionSymbol) -> (r: Result<(), String>)
        requires
            old(self).wf(),
        ensures
            final(self).wf(),
            final(self).current() == old(self).current(),
            final(self).scope_entries() == old(self).scope_entries(),
            final(self).types() == old(self).types(),
            match r {
                Ok(()) => !old(self).function_map().contains_key(func.name@)
                    && final(self).function_map() == old(self).function_map().insert(func.name@, func)
                    && final(self).function_entries() == old(self).function_entries().push((func.name@, func)),
                Err(msg) => old(self).function_map().contains_key(func.name@)
                    && msg@ == "Function '"@ + func.name@ + "' already declared"@
                    && final(self).function_entries() == old(self).function_entries(),
            },
    {
        if self.functions.get(func.name.as_str()).is_some() {
            let msg = concat(concat("Function '", func.name.as_str()).as_str(), "' already declared");
            return Err(msg);
        }
        let key = func.name.clone();
        self.functions.push_new(key, func);
        Ok(())
    }

    /// The function declared as `name`, if any.
    pub fn get_function(&self, name: &str) -> (r: Option<&FunctionSymbol>)
        ensures
            match r {
                Some(f) => self.function_map().contains_key(name@) && *f == self.function_map()[name@],
                None => !self.function_map().contains_key(name@),
            },
    {
        self.functions.get(name)
    }

    /// Marks the function `name` (if declared) as compiled at `address`.
    pub fn mark_function_compiled(&mut self, name: &str, address: u64)
        requires
            old(self).wf(),
        ensures
            final(self).wf(),
            final(self).current() == old(self).current(),
            final(self).scope_entries() == old(self).scope_entries(),
            final(self).types() == old(self).types(),
            final(self).function_map() == if old(self).function_map().contains_key(name@) {
                old(self).function_map().insert(name@, FunctionSymbol {
                    is_compiled: true,
                    address: Some(address),
                    ..old(self).function_map()[name@]
                })
            } else {
                old(self).function_map()
            },
    {
        match self.functions.position(name) {
            Some(i) => {
                let mut f = self.functions.replace_at(i, placeholder_function());
                f.is_compiled = true;
                f.address = Some(address);
                self.functions.set_at(i, f);
            },
            None => {},
        }
    }

    /// Counts one more call of the function `name`, if declared.
    pub fn increment_call_count(&mut self, name: &str)
        requires
            old(self).wf(),
            old(self).function_map().contains_key(name@) ==> old(self).function_map()[name@].call_count < usize::MAX,
        ensures
            final(self).wf(),
            final(self).current() == old(self).current(),
            final(self).scope_entries() == old(self).scope_entries(),
            final(self).types() == old(self).types(),
            final(self).function_map() == if old(self).function_map().contains_key(name@) {
                old(self).function_map().insert(name@, FunctionSymbol {
                    call_count: (old(self).function_map()[name@].call_count + 1) as usize,
                    ..old(self).function_map()[name@]
                })
            } else {
                old(self).function_map()
            },
    {
        match self.functions.position(name) {
            Some(i) => {
                let mut f = self.functions.replace_at(i, placeholder_function());
                f.call_count = f.call_count + 1;
                self.functions.set_at(i, f);
            },
            None => {},
        }
    }

    /// The names, scope by scope in entry order, of the variables with at
    /// least `threshold` references.
    pub fn get_hot_variables(&self, threshold: usize) -> (r: Vec<String>)
        ensures
            r@.map_values(|s: String| s@) == hot_upto(self.scope_entries(), self.scope_entries().len() as int, threshold),
    {
        let mut hot: Vec<String> = Vec::new();
        let mut k: usize = 0;
        while k < self.scopes.len()
            invariant
                0 <= k <= self.scopes.len(),
                hot@.map_values(|s: String| s@) == hot_upto(self.scope_entries(), k as int, threshold),
            decreases self.scopes.len() - k,
        {
            let scope = &self.scopes[k];
            let ghost start = hot@.map_values(|s: String| s@);
            let mut i: usize = 0;
            while i < scope.len()
                invariant
                    0 <= i <= scope.pairs().len(),
                    scope == &self.scopes@[k as int],
                    k < self.scopes@.len(),
                    hot@.map_values(|s: String| s@) == start + hot_in(scope.pairs().take(i as int), threshold),
                decreases scope.pairs().len() - i,
            {
                let ghost before = hot@;
                if scope.value_at(i).reference_count >= threshold {
                    hot.push(scope.name_at(i).clone());
                }
                proof {
                    let t = scope.pairs().take(i + 1);
                    let p = scope.pairs().take(i as int);
                    assert(t.drop_last() =~= p);
                    assert(t.last() == scope.pairs()[i as int]);
                    if scope.pairs()[i as int].1.reference_count >= threshold {
                        assert(hot_in(t, threshold) == hot_in(p, threshold).push(t.last().0));
                        assert(start + hot_in(p, threshold).push(t.last().0) =~= (start + hot_in(p, threshold)).push(t.last().0));
                    } else {
                        assert(hot_in(t, threshold) == hot_in(p, threshold));
                    }
                    assert(hot@.map_values(|s: String| s@) =~= start + hot_in(t, threshold));
                }
                i = i + 1;
            }
            proof {
                assert(scope.pairs().take(scope.pairs().len() as int) =~= scope.pairs());
                assert(self.scope_entries()[k as int] == scope.pairs());
            }
            k = k + 1;
        }
        hot
    }

    /// The names, in declaration order, of the functions called at least
    /// `threshold` times.
    pub fn get_hot_functions(&self, threshold: usize) -> (r: Vec<String>)
        ensures
            r@.map_values(|s: String| s@) == hot_fns_in(self.function_entries(), threshold),
    {
        let mut hot: Vec<String> = Vec::new();
        let mut i: usize = 0;
        while i < self.functions.len()
            invariant
                0 <= i <= self.functions.pairs().len(),
                hot@.map_values(|s: String| s@) == hot_fns_in(self.functions.pairs().take(i as int), threshold),
            decreases self.functions.pairs().len() - i,
        {
            if self.functions.value_at(i).call_count >= threshold {
                hot.push(self.functions.name_at(i).clone());
            }
            proof {
                assert(self.functions.pairs().take(i + 1).drop_last() =~= self.functions.pairs().take(i as int));
                assert(hot@.map_values(|s: String| s@) =~= hot_fns_in(self.functions.pairs().take(i + 1), threshold));
            }
            i = i + 1;
        }
        assert(self.functions.pairs().take(self.functions.pairs().len() as int) =~= self.functions.pairs());
        hot
    }
}

proof fn lemma_scope_of_range(scopes: Seq<Map<Seq<char>, Symbol>>, i: int, name: Seq<char>)
    ensures
        scope_of(scopes, i, name) matches Some(j) ==> 0 <= j <= i && scopes[j].contains_key(name),
    decreases i + 1,
{
    if i >= 0 && !scopes[i].contains_key(name) {
        lemma_scope_of_range(scopes, i - 1, name);
    }
}


/// Two stacks of scopes that agree on the scopes up to `i` give every name
/// the same declaring scope.
proof fn lemma_scope_of_agree(a: Seq<Map<Seq<char>, Symbol>>, b: Seq<Map<Seq<char>, Symbol>>, i: int, name: Seq<char>)
    requires
        i < a.len(),
        i < b.len(),
        forall|j: int| 0 <= j <= i ==> a[j].contains_key(name) == b[j].contains_key(name),
    ensures
        scope_of(a, i, name) == scope_of(b, i, name),
        scope_of(a, i, name) matches Some(k) ==> 0 <= k <= i && a[k].contains_key(name),
    decreases i + 1,
{
    if i >= 0 && !a[i].contains_key(name) {
        lemma_scope_of_agree(a, b, i - 1, name);
    }
}

/// Declaring `name` in the current scope: `name` then denotes the new
/// symbol, whatever the outer scopes declare, and every other name keeps
/// what it denoted.
pub proof fn law_declared_is_visible(before: SymbolTable, after: SymbolTable, name: Seq<char>, sym: Symbol)
    requires
        before.wf(),
        after.current() == before.current(),
        after.scope_maps() == before.scope_maps().update(
            before.current(),
            before.scope_maps()[before.current()].insert(name, sym),
        ),
    ensures
        after.visible(name) == Some(sym),
        forall|other: Seq<char>| other != name ==> #[trigger] after.visible(other) == before.visible(other),
{
    let cur = before.current();
    let a = after.scope_maps();
    let b = before.scope_maps();
    assert(scope_of(a, cur, name) == Some(cur));
    assert forall|other: Seq<char>| other != name implies #[trigger] after.visible(other) == before.visible(other) by {
        assert forall|j: int| 0 <= j <= cur implies a[j].contains_key(other) == b[j].contains_key(other) by {
            if j == cur {
                assert(a[j] == b[j].insert(name, sym));
            }
        }
        lemma_scope_of_agree(a, b, cur, other);
        if let Some(k) = scope_of(a, cur, other) {
            if k == cur {
                assert(a[k] == b[k].insert(name, sym));
            }
        }
    }
}

/// Entering a scope: every name keeps what it denoted, since the new scope
/// is empty.
pub proof fn law_enter_keeps_visibility(before: SymbolTable, after: SymbolTable)
    requires
        before.wf(),
        after.wf(),
        after.current() == before.current() + 1,
        after.scope_maps()[after.current()] == Map::<Seq<char>, Symbol>::empty(),
        forall|i: int| 0 <= i <= before.current() ==> #[trigger] after.scope_maps()[i] == before.scope_maps()[i],
    ensures
        forall|n: Seq<char>| #[trigger] after.visible(n) == before.visible(n),
{
    let a = after.scope_maps();
    let b = before.scope_maps();
    let cur = before.current();
    assert forall|n: Seq<char>| #[trigger] after.visible(n) == before.visible(n) by {
        assert forall|j: int| 0 <= j <= cur implies a[j].contains_key(n) == b[j].contains_key(n) by {
            assert(a[j] == b[j]);
        }
        lemma_scope_of_agree(a, b, cur, n);
        assert(!a[cur + 1].contains_key(n));
        assert(scope_of(a, cur + 1, n) == scope_of(a, cur, n));
        if let Some(k) = scope_of(a, cur, n) {
            assert(a[k] == b[k]);
        }
    }
}

/// Leaving a scope: what it declared is forgotten, and every name denotes
/// what the enclosing scopes give it.
pub proof fn law_exit_hides_inner(before: SymbolTable, after: SymbolTable)
    requires
        before.wf(),
        before.current() > 0,
        after.current() == before.current() - 1,
        after.scope_maps() == before.scope_maps().update(before.current(), Map::<Seq<char>, Symbol>::empty()),
    ensures
        forall|n: Seq<char>| #[trigger] after.visible(n) == match scope_of(before.scope_maps(), before.current() - 1, n) {
            Some(i) => Some(before.scope_maps()[i][n]),
            None => None::<Symbol>,
        },
        after.scope_maps()[before.current()] == Map::<Seq<char>, Symbol>::empty(),
{
    let a = after.scope_maps();
    let b = before.scope_maps();
    let cur = before.current();
    assert forall|n: Seq<char>| #[trigger] after.visible(n) == match scope_of(b, cur - 1, n) {
        Some(i) => Some(b[i][n]),
        None => None::<Symbol>,
    } by {
        assert forall|j: int| 0 <= j <= cur - 1 implies a[j].contains_key(n) == b[j].contains_key(n) by {
            assert(a[j] == b[j]);
        }
        lemma_scope_of_agree(a, b, cur - 1, n);
        if let Some(k) = scope_of(a, cur - 1, n) {
            assert(a[k] == b[k]);
        }
    }
}

/// Entering a scope and leaving it again: every name denotes what it did
/// before, and the current scope is the same.
pub proof fn law_enter_exit_roundtrip(t0: SymbolTable, t1: SymbolTable, t2: SymbolTable)
    requires
        t0.wf(),
        t1.wf(),
        t1.current() == t0.current() + 1,
        t1.scope_maps()[t1.current()] == Map::<Seq<char>, Symbol>::empty(),
        forall|i: int| 0 <= i <= t0.current() ==> #[trigger] t1.scope_maps()[i] == t0.scope_maps()[i],
        t2.current() == t1.current() - 1,
        t2.scope_maps() == t1.scope_maps().update(t1.current(), Map::<Seq<char>, Symbol>::empty()),
    ensures
        t2.current() == t0.current(),
        forall|n: Seq<char>| #[trigger] t2.visible(n) == t0.visible(n),
{
    let a = t2.scope_maps();
    let b = t0.scope_maps();
    let cur = t0.current();
    assert forall|n: Seq<char>| #[trigger] t2.visible(n) == t0.visible(n) by {
        assert forall|j: int| 0 <= j <= cur implies a[j].contains_key(n) == b[j].contains_key(n) by {
            assert(a[j] == t1.scope_maps()[j]);
            assert(t1.scope_maps()[j] == b[j]);
        }
        lemma_scope_of_agree(a, b, cur, n);
        if let Some(k) = scope_of(a, cur, n) {
            assert(a[k] == t1.scope_maps()[k]);
        }
    }
}

} // verus!
