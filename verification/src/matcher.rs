//! The contract matcher: evaluates every contract registered for a
//! sensitive call's operation identity against one abstract state snapshot
//! and partitions the contract names into passed, failed and unknown — the
//! three kept strictly apart so that "proven safe" is distinguishable from
//! "not proven, not disproven".

use vstd::prelude::*;

use crate::contracts::Contract;
use crate::contracts::Outcome;
use crate::contracts::names_for_op;
use crate::contracts::names_view;
use crate::contracts::spec_eval_contract;
use crate::contracts::eval_contract;
use crate::state::AbstractState;
use crate::state::StateModel;

verus! {

/// The mathematical model of a [`CheckResult`].
#[verifier::ext_equal]
pub ghost struct CheckResultModel {
    pub op: u64,
    pub op_name: Seq<char>,
    pub block: int,
    pub stmt: int,
    pub passed: Seq<Seq<char>>,
    pub failed: Seq<Seq<char>>,
    pub unknown: Seq<Seq<char>>,
    /// False only where the exploration budget ran out before this call
    /// could be evaluated: the analysis of it is incomplete, not clean.
    pub complete: bool,
}

/// The record produced for one sensitive call site: the operation and its
/// location, and the names of the contracts that passed, failed, and could
/// not be decided, each list in catalog order.
pub struct CheckResult {
    pub op: u64,
    pub op_name: String,
    pub block: usize,
    pub stmt: usize,
    pub passed: Vec<String>,
    pub failed: Vec<String>,
    pub unknown: Vec<String>,
    /// Whether the call was actually evaluated. False marks the distinct
    /// "analysis incomplete" condition of a budget-exhausted walk, so that
    /// an exhausted all-unknown entry is never mistaken for an ordinary
    /// missing-fact one.
    pub complete: bool,
}

impl View for CheckResult {
    type V = CheckResultModel;

    open spec fn view(&self) -> CheckResultModel {
        CheckResultModel {
            op: self.op,
            op_name: self.op_name@,
            block: self.block as int,
            stmt: self.stmt as int,
            passed: names_view(self.passed@),
            failed: names_view(self.failed@),
            unknown: names_view(self.unknown@),
            complete: self.complete,
        }
    }
}

/// The view of a sequence of check results.
pub open spec fn results_view(s: Seq<CheckResult>) -> Seq<CheckResultModel> {
    s.map_values(|c: CheckResult| c@)
}

/// The partition of the names of the contracts registered for `op` by their
/// outcome against `st`, each of the three lists in catalog order.
pub open spec fn spec_match(cat: Seq<Contract>, op: u64, args: Seq<usize>, st: StateModel) -> (
    Seq<Seq<char>>,
    Seq<Seq<char>>,
    Seq<Seq<char>>,
)
    decreases cat.len(),
{
    if cat.len() == 0 {
        (Seq::empty(), Seq::empty(), Seq::empty())
    } else {
        let r = spec_match(cat.drop_last(), op, args, st);
        let c = cat.last();
        if c.op == op {
            match spec_eval_contract(c, args, st) {
                Outcome::Satisfied => (r.0.push(c.name@), r.1, r.2),
                Outcome::Violated => (r.0, r.1.push(c.name@), r.2),
                Outcome::Unknown => (r.0, r.1, r.2.push(c.name@)),
            }
        } else {
            r
        }
    }
}

/// Executable contract matching at one call site. Pure function of the
/// catalog, the operation identity, the argument bindings and the state.
pub fn match_contracts(cat: &Vec<Contract>, op: u64, args: &Vec<usize>, st: &AbstractState) -> (r: (
    Vec<String>,
    Vec<String>,
    Vec<String>,
))
    ensures
        names_view(r.0@) =~= spec_match(cat@, op, args@, st@).0,
        names_view(r.1@) =~= spec_match(cat@, op, args@, st@).1,
        names_view(r.2@) =~= spec_match(cat@, op, args@, st@).2,
{
    let mut passed: Vec<String> = Vec::new();
    let mut failed: Vec<String> = Vec::new();
    let mut unknown: Vec<String> = Vec::new();
    let mut i: usize = 0;
    while i < cat.len()
        invariant
            i <= cat@.len(),
            names_view(passed@) =~= spec_match(cat@.take(i as int), op, args@, st@).0,
            names_view(failed@) =~= spec_match(cat@.take(i as int), op, args@, st@).1,
            names_view(unknown@) =~= spec_match(cat@.take(i as int), op, args@, st@).2,
        decreases cat@.len() - i,
    {
        proof {
            assert(cat@.take(i + 1).drop_last() =~= cat@.take(i as int));
            assert(cat@.take(i + 1).last() == cat@[i as int]);
        }
        if cat[i].op == op {
            match eval_contract(&cat[i], args, st) {
                Outcome::Satisfied => passed.push(cat[i].name.clone()),
                Outcome::Violated => failed.push(cat[i].name.clone()),
                Outcome::Unknown => unknown.push(cat[i].name.clone()),
            }
        }
        i = i + 1;
        proof {
            assert(names_view(passed@) =~= spec_match(cat@.take(i as int), op, args@, st@).0);
            assert(names_view(failed@) =~= spec_match(cat@.take(i as int), op, args@, st@).1);
            assert(names_view(unknown@) =~= spec_match(cat@.take(i as int), op, args@, st@).2);
        }
    }
    proof {
        assert(cat@.take(cat@.len() as int) =~= cat@);
    }
    (passed, failed, unknown)
}

/// The check result for one sensitive call evaluated against a state.
pub open spec fn spec_check_at(cat: Seq<Contract>, op: u64, name: Seq<char>, blk: int, stmt: int, args: Seq<usize>, st: StateModel) -> CheckResultModel {
    let lists = spec_match(cat, op, args, st);
    CheckResultModel { op, op_name: name, block: blk, stmt, passed: lists.0, failed: lists.1, unknown: lists.2, complete: true }
}

/// The check result recorded for a sensitive call the exhausted budget
/// left unevaluated: nothing passed, nothing failed, every registered
/// contract unknown, and the entry marked incomplete — a condition kept
/// distinct from an ordinary all-unknown evaluation.
pub open spec fn spec_check_exhausted(cat: Seq<Contract>, op: u64, name: Seq<char>, blk: int, stmt: int) -> CheckResultModel {
    CheckResultModel {
        op,
        op_name: name,
        block: blk,
        stmt,
        passed: Seq::empty(),
        failed: Seq::empty(),
        unknown: names_for_op(cat, op),
        complete: false,
    }
}

} // verus!
