//! The abstract program state tracked per basic block: one fact set per
//! local and per field of the owning type, with value semantics and an
//! explicit conservative join for control-flow merge points.

use vstd::prelude::*;

use crate::facts::Facts;
use crate::facts::Provenance;
use crate::facts::TriFact;
use crate::facts::merge_facts;
use crate::facts::merge_facts_exec;
use crate::facts::unknown_facts;

verus! {

/// The mathematical model of an [`AbstractState`]: two sequences of fact
/// sets, indexed by local number and by field number.
#[verifier::ext_equal]
pub ghost struct StateModel {
    pub locals: Seq<Facts>,
    pub fields: Seq<Facts>,
}

/// The symbolic state at one program point: `locals[i]` holds the facts
/// for local `i`, `fields[j]` the facts for field `j` of the owning type.
pub struct AbstractState {
    pub locals: Vec<Facts>,
    pub fields: Vec<Facts>,
}

impl View for AbstractState {
    type V = StateModel;

    open spec fn view(&self) -> StateModel {
        StateModel { locals: self.locals@, fields: self.fields@ }
    }
}

/// Pointwise join of two states of equal shape. Indexing past `b` is
/// irrelevant: the join is only ever taken of states of one body.
pub open spec fn merge_state(a: StateModel, b: StateModel) -> StateModel {
    StateModel {
        locals: Seq::new(a.locals.len(), |i: int| merge_facts(a.locals[i], b.locals[i])),
        fields: Seq::new(a.fields.len(), |i: int| merge_facts(a.fields[i], b.fields[i])),
    }
}

/// A sequence of fact sets that carry no knowledge, the entry value for
/// unseeded fields and the degraded value after budget exhaustion.
pub open spec fn unknown_fields(n: nat) -> Seq<Facts> {
    Seq::new(n, |i: int| unknown_facts())
}

/// Executable pointwise join of two fact vectors of equal length.
pub fn merge_fact_vecs(a: &Vec<Facts>, b: &Vec<Facts>) -> (r: Vec<Facts>)
    requires
        a@.len() == b@.len(),
    ensures
        r@ =~= Seq::new(a@.len(), |i: int| merge_facts(a@[i], b@[i])),
{
    let mut out: Vec<Facts> = Vec::new();
    let mut i: usize = 0;
    while i < a.len()
        invariant
            i <= a@.len(),
            a@.len() == b@.len(),
            out@.len() == i,
            forall|j: int| 0 <= j < i ==> out@[j] == merge_facts(a@[j], b@[j]),
        decreases a@.len() - i,
    {
        out.push(merge_facts_exec(a[i], b[i]));
        i = i + 1;
    }
    out
}

/// Executable conservative join of two abstract states of equal shape.
pub fn merge_states(a: &AbstractState, b: &AbstractState) -> (r: AbstractState)
    requires
        a@.locals.len() == b@.locals.len(),
        a@.fields.len() == b@.fields.len(),
    ensures
        r@ =~= merge_state(a@, b@),
        r@.locals.len() == a@.locals.len(),
        r@.fields.len() == a@.fields.len(),
{
    AbstractState { locals: merge_fact_vecs(&a.locals, &b.locals), fields: merge_fact_vecs(&a.fields, &b.fields) }
}

/// Copy of a fact vector, so that a state can flow out along several
/// edges, each elaborated on its own.
pub fn clone_fact_vec(a: &Vec<Facts>) -> (r: Vec<Facts>)
    ensures
        r@ =~= a@,
{
    let mut out: Vec<Facts> = Vec::new();
    let mut i: usize = 0;
    while i < a.len()
        invariant
            i <= a@.len(),
            out@.len() == i,
            forall|j: int| 0 <= j < i ==> out@[j] == a@[j],
        decreases a@.len() - i,
    {
        out.push(a[i]);
        i = i + 1;
    }
    out
}

/// Copy of an abstract state, for flowing it along several edges.
pub fn clone_state(a: &AbstractState) -> (r: AbstractState)
    ensures
        r@ =~= a@,
{
    AbstractState { locals: clone_fact_vec(&a.locals), fields: clone_fact_vec(&a.fields) }
}

/// Decides equality of two fact vectors.
pub fn fact_vecs_eq(a: &Vec<Facts>, b: &Vec<Facts>) -> (r: bool)
    ensures
        r <==> a@ =~= b@,
{
    if a.len() != b.len() {
        return false;
    }
    let mut i: usize = 0;
    while i < a.len()
        invariant
            i <= a@.len(),
            a@.len() == b@.len(),
            forall|j: int| 0 <= j < i ==> a@[j] == b@[j],
        decreases a@.len() - i,
    {
        if a[i] != b[i] {
            return false;
        }
        i = i + 1;
    }
    true
}

/// Decides equality of two abstract states, used to detect that the
/// propagation of states over the graph has reached a fixed point.
pub fn states_eq(a: &AbstractState, b: &AbstractState) -> (r: bool)
    ensures
        r <==> a@ == b@,
{
    let r = fact_vecs_eq(&a.locals, &b.locals) && fact_vecs_eq(&a.fields, &b.fields);
    proof {
        if r {
            assert(a@ =~= b@);
        }
    }
    r
}

/// A fact vector of the given length carrying no knowledge.
pub fn unknown_fields_vec(n: usize) -> (r: Vec<Facts>)
    ensures
        r@ =~= unknown_fields(n as nat),
{
    let mut out: Vec<Facts> = Vec::new();
    let mut i: usize = 0;
    while i < n
        invariant
            i <= n,
            out@.len() == i,
            forall|j: int| 0 <= j < i ==> out@[j] == unknown_facts(),
        decreases n - i,
    {
        out.push(
            Facts {
                init: TriFact::Unknown,
                bounds: TriFact::Unknown,
                prov: Provenance::Unresolved,
            },
        );
        i = i + 1;
    }
    out
}

} // verus!
