//! What an import does, given the modules being imported and those done:
//! a module already on the import chain is a cycle, a module done before
//! is skipped, any other is loaded.

use vstd::prelude::*;
use crate::ir::names_view;
use crate::text::{concat, same_text};

verus! {

/// What to do with an import.
#[derive(Debug, Clone, PartialEq, Eq)]
pub enum ImportAction {
    /// The import closes a cycle: the error, with the chain of modules.
    Cycle(String),
    /// The module was imported before: nothing to do.
    Skip,
    /// Read and process the module.
    Load,
}

/// The pieces of `ps` joined with `sep`.
pub open spec fn joined(ps: Seq<Seq<char>>, sep: Seq<char>) -> Seq<char>
    decreases ps.len(),
{
    if ps.len() == 0 {
        Seq::empty()
    } else if ps.len() == 1 {
        ps[0]
    } else {
        joined(ps.drop_last(), sep) + sep + ps.last()
    }
}

/// The error for an import of `module` while `chain` is being imported.
pub open spec fn cycle_message(chain: Seq<Seq<char>>, module: Seq<char>) -> Seq<char> {
    "Cyclic import detected:\n"@ + joined(chain.push(module), "\n  -> "@)
}

/// Whether `x` is one of `v`.
fn holds(v: &Vec<String>, x: &str) -> (r: bool)
    ensures
        r == names_view(v@).contains(x@),
{
    let ghost ns = names_view(v@);
    let mut i: usize = 0;
    while i < v.len()
        invariant
            0 <= i <= v.len(),
            ns == names_view(v@),
            forall|j: int| 0 <= j < i ==> ns[j] != x@,
        decreases v.len() - i,
    {
        if same_text(v[i].as_str(), x) {
            assert(ns[i as int] == x@);
            return true;
        }
        i = i + 1;
    }
    false
}

/// The pieces joined with `sep`.
fn join_pieces(ps: &Vec<String>, sep: &str) -> (r: String)
    ensures
        r@ == joined(names_view(ps@), sep@),
{
    let ghost ns = names_view(ps@);
    let mut out = String::new();
    let mut i: usize = 0;
    assert(out@ =~= Seq::<char>::empty());
    while i < ps.len()
        invariant
            0 <= i <= ps.len(),
            ns == names_view(ps@),
            out@ == joined(ns.take(i as int), sep@),
        decreases ps.len() - i,
    {
        assert(ns.take(i + 1).drop_last() =~= ns.take(i as int));
        assert(ns.take(i + 1).last() == ps@[i as int]@);
        if i == 0 {
            out = concat(out.as_str(), ps[i].as_str());
            assert(ns.take(1) =~= seq![ps@[0]@]);
            assert(out@ =~= ps@[0]@);
        } else {
            let with_sep = concat(out.as_str(), sep);
            out = concat(with_sep.as_str(), ps[i].as_str());
        }
        i = i + 1;
    }
    assert(ns.take(ps.len() as int) =~= ns);
    out
}

/// What to do with an import of `module` (a canonical path) while `chain`
/// is being imported and `done` were imported before.
pub fn import_action(chain: &Vec<String>, done: &Vec<String>, module: &str) -> (r: ImportAction)
    ensures
        names_view(chain@).contains(module@) ==> (r matches ImportAction::Cycle(m) && m@ == cycle_message(names_view(chain@), module@)),
        !names_view(chain@).contains(module@) && names_view(done@).contains(module@) ==> r == ImportAction::Skip,
        !names_view(chain@).contains(module@) && !names_view(done@).contains(module@) ==> r == ImportAction::Load,
{
    if holds(chain, module) {
        let mut all: Vec<String> = Vec::new();
        let mut i: usize = 0;
        while i < chain.len()
            invariant
                0 <= i <= chain.len(),
                names_view(all@) == names_view(chain@).take(i as int),
            decreases chain.len() - i,
        {
            let ghost before = names_view(all@);
            all.push(chain[i].clone());
            assert(names_view(all@) =~= before.push(chain@[i as int]@));
            assert(names_view(chain@).take(i + 1) =~= names_view(chain@).take(i as int).push(chain@[i as int]@));
            i = i + 1;
        }
        let ghost before = names_view(all@);
        all.push(module.to_owned());
        assert(names_view(all@) =~= names_view(chain@).push(module@)) by {
            assert(names_view(chain@).take(chain@.len() as int) =~= names_view(chain@));
            assert(names_view(all@) =~= before.push(module@));
        }
        let chain_text = join_pieces(&all, "\n  -> ");
        return ImportAction::Cycle(concat("Cyclic import detected:\n", chain_text.as_str()));
    }
    if holds(done, module) {
        ImportAction::Skip
    } else {
        ImportAction::Load
    }
}

} // verus!
