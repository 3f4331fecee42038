//! The per-value fact lattice: what the analysis may know about one local
//! or field at one program point, and the conservative join used at
//! control-flow merge points.

use vstd::prelude::*;

verus! {

/// A boolean-like fact about a value, with a third point for "not known".
///
/// `Established` and `Refuted` are definite knowledge; `Unknown` is the
/// bottom of the lattice. A merge never upgrades: two incoming paths agree or
/// the fact degrades to `Unknown`.
#[derive(Clone, Copy, PartialEq, Eq, Structural, Debug)]
pub enum TriFact {
    Established,
    Refuted,
    Unknown,
}

/// Where a value came from, as far as the analysis has seen.
///
/// `Unresolved` covers both "no knowledge" and "result of an opaque external
/// call": in either case no provenance-dependent contract may be declared
/// violated on its account.
#[derive(Clone, Copy, PartialEq, Eq, Structural, Debug)]
pub enum Provenance {
    Unresolved,
    Constant,
    Argument,
}

/// The fact set tracked for a single local or field.
#[derive(Clone, Copy, PartialEq, Eq, Structural, Debug)]
pub struct Facts {
    /// Whether the slot definitely holds a value.
    pub init: TriFact,
    /// Whether a bounds check on the value has been observed.
    pub bounds: TriFact,
    /// The value's origin.
    pub prov: Provenance,
}

/// Join of two boolean-like facts: identical knowledge survives, any
/// disagreement becomes `Unknown`.
pub open spec fn merge_tri(a: TriFact, b: TriFact) -> TriFact {
    if a == b {
        a
    } else {
        TriFact::Unknown
    }
}

/// Join of two provenance tags: identical tags survive, any disagreement
/// becomes `Unresolved`.
pub open spec fn merge_prov(a: Provenance, b: Provenance) -> Provenance {
    if a == b {
        a
    } else {
        Provenance::Unresolved
    }
}

/// Pointwise join of two fact sets.
pub open spec fn merge_facts(a: Facts, b: Facts) -> Facts {
    Facts { init: merge_tri(a.init, b.init), bounds: merge_tri(a.bounds, b.bounds), prov: merge_prov(a.prov, b.prov) }
}

/// Facts for a local that no statement has assigned yet: definitely
/// uninitialized, definitely unchecked, of no known origin.
pub open spec fn uninit_facts() -> Facts {
    Facts { init: TriFact::Refuted, bounds: TriFact::Refuted, prov: Provenance::Unresolved }
}

/// Facts for a formal parameter at function entry: it holds a value, but
/// nothing else is known of it.
pub open spec fn param_facts() -> Facts {
    Facts { init: TriFact::Established, bounds: TriFact::Unknown, prov: Provenance::Argument }
}

/// Facts for a value produced by a constant assignment.
pub open spec fn const_facts() -> Facts {
    Facts { init: TriFact::Established, bounds: TriFact::Established, prov: Provenance::Constant }
}

/// Facts for the result of an opaque external call: a value is present, but
/// its bounds and origin are unresolved.
pub open spec fn external_facts() -> Facts {
    Facts { init: TriFact::Established, bounds: TriFact::Unknown, prov: Provenance::Unresolved }
}

/// Facts carrying no knowledge at all, used for unseeded fields and for
/// state degraded by budget exhaustion.
pub open spec fn unknown_facts() -> Facts {
    Facts { init: TriFact::Unknown, bounds: TriFact::Unknown, prov: Provenance::Unresolved }
}

/// `a` is no more definite than `b`: either the same knowledge, or none.
pub open spec fn tri_leq(a: TriFact, b: TriFact) -> bool {
    a == TriFact::Unknown || a == b
}

/// `a` is no more definite a provenance than `b`.
pub open spec fn prov_leq(a: Provenance, b: Provenance) -> bool {
    a == Provenance::Unresolved || a == b
}

/// Pointwise information order on fact sets: the left side claims nothing
/// the right side does not claim.
pub open spec fn facts_leq(a: Facts, b: Facts) -> bool {
    tri_leq(a.init, b.init) && tri_leq(a.bounds, b.bounds) && prov_leq(a.prov, b.prov)
}

/// Executable pointwise join of two fact sets.
pub fn merge_facts_exec(a: Facts, b: Facts) -> (r: Facts)
    ensures
        r == merge_facts(a, b),
{
    Facts {
        init: if a.init == b.init {
            a.init
        } else {
            TriFact::Unknown
        },
        bounds: if a.bounds == b.bounds {
            a.bounds
        } else {
            TriFact::Unknown
        },
        prov: if a.prov == b.prov {
            a.prov
        } else {
            Provenance::Unresolved
        },
    }
}

} // verus!
