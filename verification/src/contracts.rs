//! The contract catalog: named safety predicates bound to sensitive
//! operation identities, and the evaluation of one contract against an
//! abstract state snapshot.

use vstd::prelude::*;

use crate::facts::Facts;
use crate::facts::Provenance;
use crate::facts::TriFact;
use crate::state::AbstractState;
use crate::state::StateModel;

verus! {

/// The outcome of evaluating one contract at one call site.
///
/// `Unknown` is neither passing nor failing: it records that a required fact
/// was absent, so the use is neither proven safe nor disproven.
#[derive(Clone, Copy, PartialEq, Eq, Structural, Debug)]
pub enum Outcome {
    Satisfied,
    Violated,
    Unknown,
}

/// The safety predicate a contract asks of one argument.
#[derive(Clone, Copy, PartialEq, Eq, Structural, Debug)]
pub enum ContractKind {
    /// The argument must definitely hold a value.
    RequiresInit,
    /// A bounds check on the argument must have been observed.
    RequiresBounds,
    /// The argument's origin must be the given tag. An `Unresolved` origin
    /// yields `Unknown`, never `Violated`.
    RequiresProvenance(Provenance),
}

/// A named safety predicate bound to one sensitive operation identity.
pub struct Contract {
    /// The contract's display name, carried into results untouched.
    pub name: String,
    /// The operation identity the contract is registered for.
    pub op: u64,
    /// The predicate asked of the bound argument.
    pub kind: ContractKind,
    /// Which of the call's arguments the predicate speaks of.
    pub arg: usize,
}

/// Maps definite knowledge of a boolean-like fact to a definite outcome and
/// absence of knowledge to `Unknown`.
pub open spec fn outcome_of_tri(t: TriFact) -> Outcome {
    match t {
        TriFact::Established => Outcome::Satisfied,
        TriFact::Refuted => Outcome::Violated,
        TriFact::Unknown => Outcome::Unknown,
    }
}

/// Evaluation of one contract against the facts of the argument it names.
/// A missing argument binding or an out-of-range local is a contract
/// evaluation gap and yields `Unknown`.
pub open spec fn spec_eval_contract(c: Contract, args: Seq<usize>, st: StateModel) -> Outcome {
    if c.arg >= args.len() {
        Outcome::Unknown
    } else if args[c.arg as int] >= st.locals.len() {
        Outcome::Unknown
    } else {
        let f = st.locals[args[c.arg as int] as int];
        match c.kind {
            ContractKind::RequiresInit => outcome_of_tri(f.init),
            ContractKind::RequiresBounds => outcome_of_tri(f.bounds),
            ContractKind::RequiresProvenance(p) => if f.prov == Provenance::Unresolved {
                Outcome::Unknown
            } else if f.prov == p {
                Outcome::Satisfied
            } else {
                Outcome::Violated
            },
        }
    }
}

/// Executable evaluation of one contract. Pure: the state is only read.
pub fn eval_contract(c: &Contract, args: &Vec<usize>, st: &AbstractState) -> (o: Outcome)
    ensures
        o == spec_eval_contract(*c, args@, st@),
{
    if c.arg >= args.len() {
        return Outcome::Unknown;
    }
    let l = args[c.arg];
    if l >= st.locals.len() {
        return Outcome::Unknown;
    }
    let f = st.locals[l];
    match c.kind {
        ContractKind::RequiresInit => match f.init {
            TriFact::Established => Outcome::Satisfied,
            TriFact::Refuted => Outcome::Violated,
            TriFact::Unknown => Outcome::Unknown,
        },
        ContractKind::RequiresBounds => match f.bounds {
            TriFact::Established => Outcome::Satisfied,
            TriFact::Refuted => Outcome::Violated,
            TriFact::Unknown => Outcome::Unknown,
        },
        ContractKind::RequiresProvenance(p) => {
            if f.prov == Provenance::Unresolved {
                Outcome::Unknown
            } else if f.prov == p {
                Outcome::Satisfied
            } else {
                Outcome::Violated
            }
        },
    }
}

/// A well-formed catalog: contracts are identified by name, so no two
/// contracts registered for one operation identity share a name. Under
/// this predicate the name lists of a check result are pairwise disjoint,
/// not only a partition at contract granularity.
pub open spec fn catalog_wf(cat: Seq<Contract>) -> bool {
    forall|i: int, j: int|
        0 <= i < j < cat.len() && (#[trigger] cat[i]).op == (#[trigger] cat[j]).op ==> cat[i].name@ != cat[j].name@
}

/// The names of all contracts registered for an operation identity, in
/// catalog order.
pub open spec fn names_for_op(cat: Seq<Contract>, op: u64) -> Seq<Seq<char>>
    decreases cat.len(),
{
    if cat.len() == 0 {
        Seq::empty()
    } else {
        let rest = names_for_op(cat.drop_last(), op);
        if cat.last().op == op {
            rest.push(cat.last().name@)
        } else {
            rest
        }
    }
}

/// The view of a vector of names.
pub open spec fn names_view(s: Seq<String>) -> Seq<Seq<char>> {
    s.map_values(|x: String| x@)
}

/// Executable collection of the names registered for an operation identity.
pub fn collect_names_for_op(cat: &Vec<Contract>, op: u64) -> (r: Vec<String>)
    ensures
        names_view(r@) =~= names_for_op(cat@, op),
{
    let mut out: Vec<String> = Vec::new();
    let mut i: usize = 0;
    while i < cat.len()
        invariant
            i <= cat@.len(),
            names_view(out@) =~= names_for_op(cat@.take(i as int), op),
        decreases cat@.len() - i,
    {
        proof {
            assert(cat@.take(i + 1).drop_last() =~= cat@.take(i as int));
            assert(cat@.take(i + 1).last() == cat@[i as int]);
        }
        if cat[i].op == op {
            out.push(cat[i].name.clone());
        }
        i = i + 1;
        proof {
            assert(names_view(out@) =~= names_for_op(cat@.take(i as int), op));
        }
    }
    proof {
        assert(cat@.take(cat@.len() as int) =~= cat@);
    }
    out
}

} // verus!
