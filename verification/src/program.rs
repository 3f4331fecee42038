//! The program model handed in by the external collaborators: the candidate
//! functions with their bodies and sensitivity classification, and the role
//! resolver that classifies each function's relationship to its owning type
//! and enumerates a type's constructors.

use vstd::prelude::*;

use crate::body::Body;

verus! {

/// One candidate function, with everything the external collaborators
/// supply: its body, the sensitivity classification, its owning type if one
/// could be resolved, and whether it is a constructor of that type.
pub struct FunctionInfo {
    /// The function's control-flow graph.
    pub body: Body,
    /// The function itself is marked as operating under relaxed safety
    /// guarantees.
    pub function_unsafe: bool,
    /// The function's body contains a sensitive operation at block
    /// granularity.
    pub block_unsafe: bool,
    /// The key of the type the function belongs to, if it was resolved.
    pub owning_type: Option<u64>,
    /// The function is known to produce a fresh instance of its owning type.
    pub is_constructor: bool,
}

/// The whole set of candidate functions, in declaration order. A function
/// is identified by its index.
pub struct Program {
    pub functions: Vec<FunctionInfo>,
}

/// A function's relationship to its owning type. Resolution failures
/// degrade softly: a function without a resolved owning type is `Plain`.
#[derive(Clone, Copy, PartialEq, Eq, Structural, Debug)]
pub enum Role {
    Plain,
    ConstructorAssociated { owning_type: u64 },
}

/// The role of a function: constructor-associated when it is a method of a
/// resolved owning type (a constructor itself is analyzed as plain — its
/// soundness does not rest on its own output's invariants).
pub open spec fn spec_role(f: FunctionInfo) -> Role {
    match f.owning_type {
        Option::None => Role::Plain,
        Option::Some(t) => if f.is_constructor {
            Role::Plain
        } else {
            Role::ConstructorAssociated { owning_type: t }
        },
    }
}

/// Executable role resolution. No side effects; never aborts.
pub fn role_of(f: &FunctionInfo) -> (r: Role)
    ensures
        r == spec_role(*f),
{
    match f.owning_type {
        Option::None => Role::Plain,
        Option::Some(t) => {
            if f.is_constructor {
                Role::Plain
            } else {
                Role::ConstructorAssociated { owning_type: t }
            }
        },
    }
}

/// Whether a function is a constructor of the given type.
pub open spec fn is_ctor_of(f: FunctionInfo, t: u64) -> bool {
    f.is_constructor && f.owning_type == Option::Some(t)
}

/// The indices of the constructors of type `t`, in declaration order.
/// Indices are distinct by construction, so the list is deduplicated.
pub open spec fn spec_constructors(funcs: Seq<FunctionInfo>, t: u64) -> Seq<int>
    decreases funcs.len(),
{
    if funcs.len() == 0 {
        Seq::empty()
    } else {
        let rest = spec_constructors(funcs.drop_last(), t);
        if is_ctor_of(funcs.last(), t) {
            rest.push(funcs.len() - 1)
        } else {
            rest
        }
    }
}

/// Executable enumeration of the constructors of type `t`, in declaration
/// order. An unresolvable constructor list is simply empty.
pub fn constructors_of(p: &Program, t: u64) -> (r: Vec<usize>)
    ensures
        r@.map_values(|x: usize| x as int) =~= spec_constructors(p.functions@, t),
        forall|j: int| 0 <= j < r@.len() ==> (#[trigger] r@[j]) < p.functions@.len(),
{
    let mut out: Vec<usize> = Vec::new();
    let mut i: usize = 0;
    while i < p.functions.len()
        invariant
            i <= p.functions@.len(),
            out@.map_values(|x: usize| x as int) =~= spec_constructors(p.functions@.take(i as int), t),
            forall|j: int| 0 <= j < out@.len() ==> (#[trigger] out@[j]) < i,
        decreases p.functions@.len() - i,
    {
        proof {
            assert(p.functions@.take(i + 1).drop_last() =~= p.functions@.take(i as int));
            assert(p.functions@.take(i + 1).last() == p.functions@[i as int]);
        }
        let f = &p.functions[i];
        if f.is_constructor {
            match f.owning_type {
                Option::Some(ot) => {
                    if ot == t {
                        out.push(i);
                    }
                },
                Option::None => {},
            }
        }
        i = i + 1;
        proof {
            assert(out@.map_values(|x: usize| x as int) =~= spec_constructors(p.functions@.take(i as int), t));
        }
    }
    proof {
        assert(p.functions@.take(p.functions@.len() as int) =~= p.functions@);
    }
    out
}

} // verus!
