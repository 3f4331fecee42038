//! The library's stated guarantees, proved over the same specification
//! functions that the executable functions' contracts are written against.

use vstd::prelude::*;

use crate::body::Body;
use crate::body::Stmt;
use crate::body::Terminator;
use crate::body::body_wf;
use crate::body::no_sensitive_calls;
use crate::checker::entry_state;
use crate::checker::spec_analyze;
use crate::checker::spec_entry_fields;
use crate::contracts::Contract;
use crate::contracts::ContractKind;
use crate::contracts::catalog_wf;
use crate::contracts::Outcome;
use crate::contracts::names_for_op;
use crate::contracts::spec_eval_contract;
use crate::facts::Facts;
use crate::facts::Provenance;
use crate::facts::TriFact;
use crate::facts::external_facts;
use crate::facts::facts_leq;
use crate::facts::merge_facts;
use crate::matcher::CheckResultModel;
use crate::matcher::spec_check_exhausted;
use crate::matcher::spec_match;
use crate::program::FunctionInfo;
use crate::program::Program;
use crate::program::spec_constructors;
use crate::state::StateModel;
use crate::state::merge_state;
use crate::visitor::spec_block_unknowns;
use crate::visitor::spec_collect;
use crate::visitor::spec_flow_block;
use crate::visitor::spec_init_states;
use crate::visitor::spec_path_forward_check;
use crate::visitor::spec_results_block;
use crate::visitor::spec_results_upto;
use crate::visitor::spec_round;
use crate::visitor::spec_round_upto;
use crate::visitor::spec_solve;
use crate::visitor::spec_step;

verus! {

/// The join of two fact sets never upgrades: a definite fact survives the
/// merge only where both incoming paths carry the same definite fact.
pub proof fn lemma_merge_facts_conservative(a: Facts, b: Facts)
    ensures
        merge_facts(a, b).init != TriFact::Unknown ==> merge_facts(a, b).init == a.init && merge_facts(a, b).init
            == b.init,
        merge_facts(a, b).bounds != TriFact::Unknown ==> merge_facts(a, b).bounds == a.bounds && merge_facts(
            a,
            b,
        ).bounds == b.bounds,
        merge_facts(a, b).prov != Provenance::Unresolved ==> merge_facts(a, b).prov == a.prov && merge_facts(
            a,
            b,
        ).prov == b.prov,
{
}

/// At a merge no fact is ever upgraded — only downgraded or preserved: the
/// join is a lower bound of both incoming fact sets in the information
/// order.
pub proof fn lemma_merge_is_lower_bound(a: Facts, b: Facts)
    ensures
        facts_leq(merge_facts(a, b), a),
        facts_leq(merge_facts(a, b), b),
{
}

/// Soundness of the join: no contract is evaluated more definitely after a
/// merge than on every incoming path. In particular a contract is never
/// Satisfied at a join point unless it is Satisfied on each incoming path,
/// and never Violated unless it is Violated on each.
pub proof fn lemma_join_soundness(c: Contract, args: Seq<usize>, a: StateModel, b: StateModel)
    requires
        a.locals.len() == b.locals.len(),
    ensures
        spec_eval_contract(c, args, merge_state(a, b)) == Outcome::Satisfied ==> spec_eval_contract(c, args, a)
            == Outcome::Satisfied && spec_eval_contract(c, args, b) == Outcome::Satisfied,
        spec_eval_contract(c, args, merge_state(a, b)) == Outcome::Violated ==> spec_eval_contract(c, args, a)
            == Outcome::Violated && spec_eval_contract(c, args, b) == Outcome::Violated,
{
    let m = merge_state(a, b);
    assert(m.locals.len() == a.locals.len());
    if c.arg < args.len() && args[c.arg as int] < m.locals.len() {
        let ix = args[c.arg as int] as int;
        assert(m.locals[ix] == merge_facts(a.locals[ix], b.locals[ix]));
        lemma_merge_facts_conservative(a.locals[ix], b.locals[ix]);
    }
}

/// An argument that is the result of an opaque external call can never make
/// a contract Violated: its unresolved origin and unknown bounds yield
/// Unknown, which is reported apart from both Satisfied and Violated.
pub proof fn lemma_unresolved_never_violated(c: Contract, args: Seq<usize>, st: StateModel)
    requires
        c.arg < args.len(),
        args[c.arg as int] < st.locals.len(),
        st.locals[args[c.arg as int] as int] == external_facts(),
    ensures
        spec_eval_contract(c, args, st) != Outcome::Violated,
        (c.kind matches ContractKind::RequiresProvenance(p)) ==> spec_eval_contract(c, args, st)
            == Outcome::Unknown,
{
}

/// Membership of a pushed sequence: the new element, or one already there.
proof fn lemma_push_contains<A>(s: Seq<A>, x: A, y: A)
    ensures
        s.push(x).contains(y) <==> s.contains(y) || x == y,
{
    if s.contains(y) {
        let i = choose|i: int| 0 <= i < s.len() && s[i] == y;
        assert(s.push(x)[i] == y);
    }
    assert(s.push(x)[s.len() as int] == x);
    if s.push(x).contains(y) && x != y {
        let i = choose|i: int| 0 <= i < s.push(x).len() && s.push(x)[i] == y;
        assert(s[i] == y);
    }
}

/// Join soundness at report granularity: a contract name reported passed
/// against the joined state is reported passed against each incoming
/// path's state, and likewise for failed. The join never invents a
/// definite outcome.
pub proof fn lemma_match_join_soundness(cat: Seq<Contract>, op: u64, args: Seq<usize>, a: StateModel, b: StateModel, n: Seq<char>)
    requires
        a.locals.len() == b.locals.len(),
    ensures
        spec_match(cat, op, args, merge_state(a, b)).0.contains(n) ==> spec_match(cat, op, args, a).0.contains(n)
            && spec_match(cat, op, args, b).0.contains(n),
        spec_match(cat, op, args, merge_state(a, b)).1.contains(n) ==> spec_match(cat, op, args, a).1.contains(n)
            && spec_match(cat, op, args, b).1.contains(n),
    decreases cat.len(),
{
    if cat.len() > 0 {
        let pre = cat.drop_last();
        lemma_match_join_soundness(pre, op, args, a, b, n);
        let c = cat.last();
        let m = merge_state(a, b);
        let rm = spec_match(pre, op, args, m);
        let ra = spec_match(pre, op, args, a);
        let rb = spec_match(pre, op, args, b);
        if c.op == op {
            lemma_join_soundness(c, args, a, b);
            lemma_push_contains(rm.0, c.name@, n);
            lemma_push_contains(ra.0, c.name@, n);
            lemma_push_contains(rb.0, c.name@, n);
            lemma_push_contains(rm.1, c.name@, n);
            lemma_push_contains(ra.1, c.name@, n);
            lemma_push_contains(rb.1, c.name@, n);
        }
    }
}

/// A registered name is in a list only if some contract of that operation
/// carries it.
proof fn lemma_names_for_op_members(cat: Seq<Contract>, op: u64, n: Seq<char>)
    ensures
        names_for_op(cat, op).contains(n) ==> exists|i: int|
            0 <= i < cat.len() && (#[trigger] cat[i]).op == op && cat[i].name@ == n,
    decreases cat.len(),
{
    if cat.len() > 0 {
        lemma_names_for_op_members(cat.drop_last(), op, n);
        let c = cat.last();
        if c.op == op {
            lemma_push_contains(names_for_op(cat.drop_last(), op), c.name@, n);
        }
        if names_for_op(cat, op).contains(n) {
            if exists|i: int| 0 <= i < cat.len() - 1 && (#[trigger] cat[i]).op == op && cat[i].name@ == n {
                let i = choose|i: int| 0 <= i < cat.len() - 1 && (#[trigger] cat[i]).op == op && cat[i].name@ == n;
                assert(cat.drop_last()[i] == cat[i]);
                assert(0 <= i < cat.len() && cat[i].op == op && cat[i].name@ == n);
            } else {
                assert(c.op == op && c.name@ == n);
                assert(cat[cat.len() - 1].op == op && cat[cat.len() - 1].name@ == n);
            }
        }
    }
}

/// Every name in any of the three lists of one evaluation is a name
/// registered for the operation.
proof fn lemma_match_lists_in_names(cat: Seq<Contract>, op: u64, args: Seq<usize>, st: StateModel, n: Seq<char>)
    ensures
        spec_match(cat, op, args, st).0.contains(n) ==> names_for_op(cat, op).contains(n),
        spec_match(cat, op, args, st).1.contains(n) ==> names_for_op(cat, op).contains(n),
        spec_match(cat, op, args, st).2.contains(n) ==> names_for_op(cat, op).contains(n),
    decreases cat.len(),
{
    if cat.len() > 0 {
        let pre = cat.drop_last();
        lemma_match_lists_in_names(pre, op, args, st, n);
        let c = cat.last();
        let r = spec_match(pre, op, args, st);
        if c.op == op {
            lemma_push_contains(r.0, c.name@, n);
            lemma_push_contains(r.1, c.name@, n);
            lemma_push_contains(r.2, c.name@, n);
            lemma_push_contains(names_for_op(pre, op), c.name@, n);
        }
    }
}

/// In a well-formed catalog, a name registered for an operation among the
/// earlier contracts is not the last contract's name for that operation.
proof fn lemma_member_of_pre(cat: Seq<Contract>, op: u64, n: Seq<char>)
    requires
        catalog_wf(cat),
        cat.len() > 0,
        cat.last().op == op,
        names_for_op(cat.drop_last(), op).contains(n),
    ensures
        n != cat.last().name@,
{
    lemma_names_for_op_members(cat.drop_last(), op, n);
    let i = choose|i: int|
        0 <= i < cat.drop_last().len() && (#[trigger] cat.drop_last()[i]).op == op && cat.drop_last()[i].name@ == n;
    assert(cat.drop_last()[i] == cat[i]);
    assert(cat[i].op == cat[cat.len() - 1].op);
}

/// Under a well-formed catalog the three name lists of one evaluation are
/// pairwise disjoint: no name is at once passed and failed, passed and
/// unknown, or failed and unknown.
pub proof fn lemma_match_disjoint(cat: Seq<Contract>, op: u64, args: Seq<usize>, st: StateModel, n: Seq<char>)
    requires
        catalog_wf(cat),
    ensures
        !(spec_match(cat, op, args, st).0.contains(n) && spec_match(cat, op, args, st).1.contains(n)),
        !(spec_match(cat, op, args, st).0.contains(n) && spec_match(cat, op, args, st).2.contains(n)),
        !(spec_match(cat, op, args, st).1.contains(n) && spec_match(cat, op, args, st).2.contains(n)),
    decreases cat.len(),
{
    if cat.len() > 0 {
        let pre = cat.drop_last();
        assert(catalog_wf(pre)) by {
            assert(forall|i: int, j: int|
                0 <= i < j < pre.len() && (#[trigger] pre[i]).op == (#[trigger] pre[j]).op ==> pre[i] == cat[i]
                    && pre[j] == cat[j]);
        }
        lemma_match_disjoint(pre, op, args, st, n);
        let c = cat.last();
        let r = spec_match(pre, op, args, st);
        if c.op == op {
            lemma_push_contains(r.0, c.name@, n);
            lemma_push_contains(r.1, c.name@, n);
            lemma_push_contains(r.2, c.name@, n);
            if n == c.name@ {
                lemma_match_lists_in_names(pre, op, args, st, n);
                if r.0.contains(n) || r.1.contains(n) || r.2.contains(n) {
                    lemma_member_of_pre(cat, op, n);
                }
            }
        }
    }
}

/// A registered contract's name lands in the list of its own outcome.
pub proof fn lemma_match_contains_outcome(cat: Seq<Contract>, op: u64, args: Seq<usize>, st: StateModel, i: int)
    requires
        0 <= i < cat.len(),
        cat[i].op == op,
    ensures
        spec_eval_contract(cat[i], args, st) == Outcome::Satisfied ==> spec_match(cat, op, args, st).0.contains(
            cat[i].name@,
        ),
        spec_eval_contract(cat[i], args, st) == Outcome::Violated ==> spec_match(cat, op, args, st).1.contains(
            cat[i].name@,
        ),
        spec_eval_contract(cat[i], args, st) == Outcome::Unknown ==> spec_match(cat, op, args, st).2.contains(
            cat[i].name@,
        ),
    decreases cat.len(),
{
    let pre = cat.drop_last();
    let c = cat.last();
    let r = spec_match(pre, op, args, st);
    if i < cat.len() - 1 {
        assert(pre[i] == cat[i]);
        lemma_match_contains_outcome(pre, op, args, st, i);
    }
    if c.op == op {
        lemma_push_contains(r.0, c.name@, cat[i].name@);
        lemma_push_contains(r.1, c.name@, cat[i].name@);
        lemma_push_contains(r.2, c.name@, cat[i].name@);
    }
}

/// The three lists of one evaluation partition the contracts registered for
/// the operation: every registered contract lands in exactly one of passed,
/// failed and unknown.
pub proof fn lemma_match_partition(cat: Seq<Contract>, op: u64, args: Seq<usize>, st: StateModel)
    ensures
        spec_match(cat, op, args, st).0.len() + spec_match(cat, op, args, st).1.len() + spec_match(
            cat,
            op,
            args,
            st,
        ).2.len() == names_for_op(cat, op).len(),
    decreases cat.len(),
{
    if cat.len() > 0 {
        lemma_match_partition(cat.drop_last(), op, args, st);
    }
}

/// The enumerated constructors of a type are in declaration order and in
/// range, each listed once: the indices are strictly increasing.
pub proof fn lemma_constructors_ordered(funcs: Seq<FunctionInfo>, t: u64)
    ensures
        forall|i: int|
            0 <= i < spec_constructors(funcs, t).len() ==> 0 <= #[trigger] spec_constructors(funcs, t)[i]
                < funcs.len(),
        forall|i: int, j: int|
            0 <= i < j < spec_constructors(funcs, t).len() ==> spec_constructors(funcs, t)[i]
                < spec_constructors(funcs, t)[j],
    decreases funcs.len(),
{
    if funcs.len() > 0 {
        lemma_constructors_ordered(funcs.drop_last(), t);
        let rest = spec_constructors(funcs.drop_last(), t);
        let cur = spec_constructors(funcs, t);
        if crate::program::is_ctor_of(funcs.last(), t) {
            assert(cur == rest.push(funcs.len() - 1));
            assert forall|i: int, j: int| 0 <= i < j < cur.len() implies cur[i] < cur[j] by {
                if j < rest.len() {
                    assert(cur[i] == rest[i] && cur[j] == rest[j]);
                } else {
                    assert(cur[i] == rest[i] && cur[j] == funcs.len() - 1);
                }
            }
        } else {
            assert(cur == rest);
        }
    }
}

/// Every check result a budget-exhausted block walk records has empty
/// passed and failed lists and is marked incomplete: exhaustion degrades
/// to Unknown, never to a definite outcome, and never poses as a clean
/// evaluation.
pub proof fn lemma_block_unknowns_indefinite(body: Body, cat: Seq<Contract>, blk: int, i: int)
    ensures
        forall|j: int|
            0 <= j < spec_block_unknowns(body, cat, blk, i).len() ==> (#[trigger] spec_block_unknowns(
                body,
                cat,
                blk,
                i,
            )[j]).passed.len() == 0 && spec_block_unknowns(body, cat, blk, i)[j].failed.len() == 0
                && !spec_block_unknowns(body, cat, blk, i)[j].complete,
    decreases body.blocks@[blk].stmts@.len() - i,
{
    if 0 <= blk < body.blocks@.len() && 0 <= i < body.blocks@[blk].stmts@.len() {
        lemma_block_unknowns_indefinite(body, cat, blk, i + 1);
        let rest = spec_block_unknowns(body, cat, blk, i + 1);
        let cur = spec_block_unknowns(body, cat, blk, i);
        match body.blocks@[blk].stmts@[i] {
            Stmt::SensitiveCall { op, name, args } => {
                let entry = spec_check_exhausted(cat, op, name@, blk, i);
                assert(cur == seq![entry] + rest);
                assert forall|j: int| 0 <= j < cur.len() implies (#[trigger] cur[j]).passed.len() == 0
                    && cur[j].failed.len() == 0 && !cur[j].complete by {
                    if j == 0 {
                        assert(cur[j] == entry);
                    } else {
                        assert(cur[j] == rest[j - 1]);
                    }
                }
            },
            _ => {
                assert(cur == rest);
            },
        }
    }
}

/// Every check result the reachable-block collection records has empty
/// passed and failed lists and is marked incomplete.
pub proof fn lemma_collect_indefinite(body: Body, cat: Seq<Contract>, blk: int, visited: Seq<bool>, gas: nat)
    ensures
        forall|j: int|
            0 <= j < spec_collect(body, cat, blk, visited, gas).0.len() ==> (#[trigger] spec_collect(
                body,
                cat,
                blk,
                visited,
                gas,
            ).0[j]).passed.len() == 0 && spec_collect(body, cat, blk, visited, gas).0[j].failed.len() == 0
                && !spec_collect(body, cat, blk, visited, gas).0[j].complete,
    decreases gas,
{
    if !(gas == 0 || !(0 <= blk < body.blocks@.len()) || visited.len() != body.blocks@.len() || visited[blk]) {
        let v1 = visited.update(blk, true);
        lemma_block_unknowns_indefinite(body, cat, blk, 0);
        let rs = spec_block_unknowns(body, cat, blk, 0);
        let cur = spec_collect(body, cat, blk, visited, gas).0;
        match body.blocks@[blk].term {
            Terminator::Return => {
                assert(cur == rs);
            },
            Terminator::Goto { target } => {
                lemma_collect_indefinite(body, cat, target as int, v1, (gas - 1) as nat);
                let r2 = spec_collect(body, cat, target as int, v1, (gas - 1) as nat);
                assert(cur == rs + r2.0);
                assert forall|j: int| 0 <= j < cur.len() implies (#[trigger] cur[j]).passed.len() == 0
                    && cur[j].failed.len() == 0 && !cur[j].complete by {
                    if j < rs.len() {
                        assert(cur[j] == rs[j]);
                    } else {
                        assert(cur[j] == r2.0[j - rs.len()]);
                    }
                }
            },
            Terminator::Branch { guard, then_target, else_target } => {
                let r2 = spec_collect(body, cat, then_target as int, v1, (gas - 1) as nat);
                lemma_collect_indefinite(body, cat, then_target as int, v1, (gas - 1) as nat);
                let r3 = spec_collect(body, cat, else_target as int, r2.1, (gas - 1) as nat);
                lemma_collect_indefinite(body, cat, else_target as int, r2.1, (gas - 1) as nat);
                assert(cur == rs + r2.0 + r3.0);
                assert forall|j: int| 0 <= j < cur.len() implies (#[trigger] cur[j]).passed.len() == 0
                    && cur[j].failed.len() == 0 && !cur[j].complete by {
                    if j < rs.len() {
                        assert(cur[j] == (rs + r2.0)[j] && (rs + r2.0)[j] == rs[j]);
                    } else if j < rs.len() + r2.0.len() {
                        assert(cur[j] == (rs + r2.0)[j] && (rs + r2.0)[j] == r2.0[j - rs.len()]);
                    } else {
                        assert(cur[j] == r3.0[j - rs.len() - r2.0.len()]);
                    }
                }
            },
        }
    }
}

/// Every check result of a completed per-block evaluation is marked
/// complete.
proof fn lemma_results_block_complete(body: Body, cat: Seq<Contract>, blk: int, i: int, st: StateModel)
    ensures
        forall|j: int|
            0 <= j < spec_results_block(body, cat, blk, i, st).len() ==> (#[trigger] spec_results_block(
                body,
                cat,
                blk,
                i,
                st,
            )[j]).complete,
    decreases body.blocks@[blk].stmts@.len() - i,
{
    if 0 <= blk < body.blocks@.len() && 0 <= i < body.blocks@[blk].stmts@.len() {
        let cur = spec_results_block(body, cat, blk, i, st);
        match body.blocks@[blk].stmts@[i] {
            Stmt::SensitiveCall { op, name, args } => {
                lemma_results_block_complete(body, cat, blk, i + 1, st);
                let rest = spec_results_block(body, cat, blk, i + 1, st);
                let entry = crate::matcher::spec_check_at(cat, op, name@, blk, i, args@, st);
                assert(cur == seq![entry] + rest);
                assert forall|j: int| 0 <= j < cur.len() implies (#[trigger] cur[j]).complete by {
                    if j == 0 {
                        assert(cur[j] == entry);
                        assert(entry.complete);
                    } else {
                        assert(cur[j] == rest[j - 1]);
                        assert(rest[j - 1].complete);
                    }
                }
            },
            _ => {
                lemma_results_block_complete(body, cat, blk, i + 1, spec_step(body.blocks@[blk].stmts@[i], st));
                assert(cur == spec_results_block(body, cat, blk, i + 1, spec_step(body.blocks@[blk].stmts@[i], st)));
            },
        }
    } else {
        assert(spec_results_block(body, cat, blk, i, st).len() == 0);
    }
}

/// Every check result of a completed result pass is marked complete.
proof fn lemma_results_upto_complete(body: Body, cat: Seq<Contract>, states: Seq<Option<StateModel>>, k: int)
    ensures
        forall|j: int|
            0 <= j < spec_results_upto(body, cat, states, k).len() ==> (#[trigger] spec_results_upto(
                body,
                cat,
                states,
                k,
            )[j]).complete,
    decreases k,
{
    if k > 0 {
        lemma_results_upto_complete(body, cat, states, k - 1);
        let rest = spec_results_upto(body, cat, states, k - 1);
        let cur = spec_results_upto(body, cat, states, k);
        if 0 <= k - 1 < states.len() {
            match states[k - 1] {
                Option::None => {},
                Option::Some(st) => {
                    lemma_results_block_complete(body, cat, k - 1, 0, st);
                    let brs = spec_results_block(body, cat, k - 1, 0, st);
                    assert forall|j: int| 0 <= j < cur.len() implies (#[trigger] cur[j]).complete by {
                        if j < rest.len() {
                            assert(cur[j] == rest[j]);
                        } else {
                            assert(cur[j] == brs[j - rest.len()]);
                        }
                    }
                },
            }
        }
    }
}

/// Budget exhaustion is a distinct, observable condition, and degrades
/// precision, never soundness: an incomplete walk reports every reachable
/// sensitive call with all contracts Unknown — nothing passed, nothing
/// failed — and marks every such entry incomplete, while a completed walk
/// marks every entry complete. Termination itself is structural: every
/// round consumes budget, so the analysis ends within budget-proportional
/// rounds on any control-flow graph, looping or not.
pub proof fn lemma_completeness_marked(body: Body, cat: Seq<Contract>, entry: StateModel, budget: nat)
    ensures
        !spec_path_forward_check(body, cat, entry, budget).2 ==> forall|j: int|
            0 <= j < spec_path_forward_check(body, cat, entry, budget).0.len() ==> (
            #[trigger] spec_path_forward_check(body, cat, entry, budget).0[j]).passed.len() == 0
                && spec_path_forward_check(body, cat, entry, budget).0[j].failed.len() == 0
                && !spec_path_forward_check(body, cat, entry, budget).0[j].complete,
        spec_path_forward_check(body, cat, entry, budget).2 ==> forall|j: int|
            0 <= j < spec_path_forward_check(body, cat, entry, budget).0.len() ==> (
            #[trigger] spec_path_forward_check(body, cat, entry, budget).0[j]).complete,
{
    let solved = spec_solve(body, spec_init_states(body, entry), budget);
    if solved.1 {
        lemma_results_upto_complete(body, cat, solved.0, body.blocks@.len() as int);
    } else {
        lemma_collect_indefinite(
            body,
            cat,
            0,
            Seq::new(body.blocks@.len(), |i: int| false),
            body.blocks@.len() as nat,
        );
    }
}

/// Entries of one block's result pass all speak of that block, at
/// strictly increasing statement indices from `i` on.
proof fn lemma_results_block_sites(body: Body, cat: Seq<Contract>, blk: int, i: int, st: StateModel)
    ensures
        forall|j: int|
            0 <= j < spec_results_block(body, cat, blk, i, st).len() ==> (#[trigger] spec_results_block(
                body,
                cat,
                blk,
                i,
                st,
            )[j]).block == blk && i <= spec_results_block(body, cat, blk, i, st)[j].stmt,
        forall|j1: int, j2: int|
            0 <= j1 < j2 < spec_results_block(body, cat, blk, i, st).len() ==> spec_results_block(
                body,
                cat,
                blk,
                i,
                st,
            )[j1].stmt < spec_results_block(body, cat, blk, i, st)[j2].stmt,
    decreases body.blocks@[blk].stmts@.len() - i,
{
    if 0 <= blk < body.blocks@.len() && 0 <= i < body.blocks@[blk].stmts@.len() {
        let cur = spec_results_block(body, cat, blk, i, st);
        match body.blocks@[blk].stmts@[i] {
            Stmt::SensitiveCall { op, name, args } => {
                lemma_results_block_sites(body, cat, blk, i + 1, st);
                let rest = spec_results_block(body, cat, blk, i + 1, st);
                let entry = crate::matcher::spec_check_at(cat, op, name@, blk, i, args@, st);
                assert(cur == seq![entry] + rest);
                assert forall|j: int| 0 <= j < cur.len() implies (#[trigger] cur[j]).block == blk && i
                    <= cur[j].stmt by {
                    if j == 0 {
                        assert(cur[j] == entry);
                    } else {
                        assert(cur[j] == rest[j - 1]);
                    }
                }
                assert forall|j1: int, j2: int| 0 <= j1 < j2 < cur.len() implies cur[j1].stmt < cur[j2].stmt by {
                    assert(cur[j2] == rest[j2 - 1]);
                    if j1 == 0 {
                        assert(cur[j1] == entry);
                    } else {
                        assert(cur[j1] == rest[j1 - 1]);
                    }
                }
            },
            _ => {
                lemma_results_block_sites(body, cat, blk, i + 1, spec_step(body.blocks@[blk].stmts@[i], st));
                assert(cur == spec_results_block(body, cat, blk, i + 1, spec_step(body.blocks@[blk].stmts@[i], st)));
            },
        }
    }
}

/// Entries of the result pass over the first `k` blocks name blocks below
/// `k` and stand in lexicographic program order by call site.
proof fn lemma_results_upto_sites(body: Body, cat: Seq<Contract>, states: Seq<Option<StateModel>>, k: int)
    ensures
        forall|j: int|
            0 <= j < spec_results_upto(body, cat, states, k).len() ==> (#[trigger] spec_results_upto(
                body,
                cat,
                states,
                k,
            )[j]).block < k,
        forall|j1: int, j2: int|
            0 <= j1 < j2 < spec_results_upto(body, cat, states, k).len() ==> (spec_results_upto(
                body,
                cat,
                states,
                k,
            )[j1].block < spec_results_upto(body, cat, states, k)[j2].block || (spec_results_upto(
                body,
                cat,
                states,
                k,
            )[j1].block == spec_results_upto(body, cat, states, k)[j2].block && spec_results_upto(
                body,
                cat,
                states,
                k,
            )[j1].stmt < spec_results_upto(body, cat, states, k)[j2].stmt)),
    decreases k,
{
    if k > 0 {
        lemma_results_upto_sites(body, cat, states, k - 1);
        let rest = spec_results_upto(body, cat, states, k - 1);
        let cur = spec_results_upto(body, cat, states, k);
        if 0 <= k - 1 < states.len() {
            match states[k - 1] {
                Option::None => {
                    assert(cur == rest);
                },
                Option::Some(st) => {
                    lemma_results_block_sites(body, cat, k - 1, 0, st);
                    let brs = spec_results_block(body, cat, k - 1, 0, st);
                    assert(cur == rest + brs);
                    assert forall|j: int| 0 <= j < cur.len() implies (#[trigger] cur[j]).block < k by {
                        if j < rest.len() {
                            assert(cur[j] == rest[j]);
                        } else {
                            assert(cur[j] == brs[j - rest.len()]);
                        }
                    }
                    assert forall|j1: int, j2: int| 0 <= j1 < j2 < cur.len() implies (cur[j1].block
                        < cur[j2].block || (cur[j1].block == cur[j2].block && cur[j1].stmt < cur[j2].stmt)) by {
                        if j1 < rest.len() {
                            assert(cur[j1] == rest[j1]);
                        } else {
                            assert(cur[j1] == brs[j1 - rest.len()]);
                        }
                        if j2 < rest.len() {
                            assert(cur[j2] == rest[j2]);
                        } else {
                            assert(cur[j2] == brs[j2 - rest.len()]);
                        }
                    }
                },
            }
        } else {
            assert(cur == rest);
        }
    }
}

/// One check result per sensitive call: a completed analysis reports each
/// call site at most once, and its results stand in program order — the
/// call sites of successive entries are strictly increasing, block first,
/// then statement.
pub proof fn lemma_one_result_per_call_site(body: Body, cat: Seq<Contract>, entry: StateModel, budget: nat)
    ensures
        spec_path_forward_check(body, cat, entry, budget).2 ==> forall|j1: int, j2: int|
            0 <= j1 < j2 < spec_path_forward_check(body, cat, entry, budget).0.len() ==> (
            #[trigger] spec_path_forward_check(body, cat, entry, budget).0[j1]).block < (
            #[trigger] spec_path_forward_check(body, cat, entry, budget).0[j2]).block || (
            spec_path_forward_check(body, cat, entry, budget).0[j1].block == spec_path_forward_check(
                body,
                cat,
                entry,
                budget,
            ).0[j2].block && spec_path_forward_check(body, cat, entry, budget).0[j1].stmt
                < spec_path_forward_check(body, cat, entry, budget).0[j2].stmt),
{
    let solved = spec_solve(body, spec_init_states(body, entry), budget);
    if solved.1 {
        lemma_results_upto_sites(body, cat, solved.0, body.blocks@.len() as int);
    }
}

/// A block walked in place of an exhausted analysis records nothing when
/// the body holds no sensitive call.
proof fn lemma_block_unknowns_empty(body: Body, cat: Seq<Contract>, blk: int, i: int)
    requires
        no_sensitive_calls(body),
    ensures
        spec_block_unknowns(body, cat, blk, i).len() == 0,
    decreases body.blocks@[blk].stmts@.len() - i,
{
    if 0 <= blk < body.blocks@.len() && 0 <= i < body.blocks@[blk].stmts@.len() {
        lemma_block_unknowns_empty(body, cat, blk, i + 1);
    }
}

/// The reachable-block collection records nothing when the body holds no
/// sensitive call.
proof fn lemma_collect_empty(body: Body, cat: Seq<Contract>, blk: int, visited: Seq<bool>, gas: nat)
    requires
        no_sensitive_calls(body),
    ensures
        spec_collect(body, cat, blk, visited, gas).0.len() == 0,
    decreases gas,
{
    if !(gas == 0 || !(0 <= blk < body.blocks@.len()) || visited.len() != body.blocks@.len() || visited[blk]) {
        let v1 = visited.update(blk, true);
        lemma_block_unknowns_empty(body, cat, blk, 0);
        match body.blocks@[blk].term {
            Terminator::Return => {},
            Terminator::Goto { target } => {
                lemma_collect_empty(body, cat, target as int, v1, (gas - 1) as nat);
            },
            Terminator::Branch { guard, then_target, else_target } => {
                let r2 = spec_collect(body, cat, then_target as int, v1, (gas - 1) as nat);
                lemma_collect_empty(body, cat, then_target as int, v1, (gas - 1) as nat);
                lemma_collect_empty(body, cat, else_target as int, r2.1, (gas - 1) as nat);
            },
        }
    }
}

/// A block without sensitive calls contributes no result.
proof fn lemma_results_block_empty(body: Body, cat: Seq<Contract>, blk: int, i: int, st: StateModel)
    requires
        no_sensitive_calls(body),
    ensures
        spec_results_block(body, cat, blk, i, st).len() == 0,
    decreases body.blocks@[blk].stmts@.len() - i,
{
    if 0 <= blk < body.blocks@.len() && 0 <= i < body.blocks@[blk].stmts@.len() {
        lemma_results_block_empty(body, cat, blk, i + 1, spec_step(body.blocks@[blk].stmts@[i], st));
    }
}

/// The result pass over a body without sensitive calls is empty.
proof fn lemma_results_upto_empty(body: Body, cat: Seq<Contract>, states: Seq<Option<StateModel>>, k: int)
    requires
        no_sensitive_calls(body),
    ensures
        spec_results_upto(body, cat, states, k).len() == 0,
    decreases k,
{
    if k > 0 {
        lemma_results_upto_empty(body, cat, states, k - 1);
        if 0 <= k - 1 < states.len() {
            match states[k - 1] {
                Option::None => {},
                Option::Some(st) => {
                    lemma_results_block_empty(body, cat, k - 1, 0, st);
                },
            }
        }
    }
}

/// A function whose body holds no sensitive operation yields an empty
/// check-result list, whatever the catalog, the budget and the seeding
/// configuration.
pub proof fn lemma_no_sensitive_ops_empty(p: Program, cat: Seq<Contract>, budget: nat, seed: bool, f: int)
    requires
        0 <= f < p.functions@.len(),
        no_sensitive_calls(p.functions@[f].body),
    ensures
        spec_analyze(p, cat, budget, seed, f).len() == 0,
{
    let info = p.functions@[f];
    let body = info.body;
    let entry = entry_state(body, spec_entry_fields(p, cat, budget, seed, info));
    let solved = spec_solve(body, spec_init_states(body, entry), budget);
    if solved.1 {
        lemma_results_upto_empty(body, cat, solved.0, body.blocks@.len() as int);
    } else {
        lemma_collect_empty(
            body,
            cat,
            0,
            Seq::new(body.blocks@.len(), |i: int| false),
            body.blocks@.len() as nat,
        );
    }
}

/// Constructor seeding, proved for every method of the stated shape: the
/// body's one block loads field `fx` into local `l` and hands it to a
/// sensitive call, and some registered contract asks a bound of that
/// argument. Whatever the catalog, the budget and the indices: entry
/// fields that carry the bound on `fx` — as seeding from a constructor
/// that establishes it supplies — make the walk report that contract
/// passed; entry fields carrying no knowledge of it — as a disabled
/// seeding supplies — make it reported unknown.
pub proof fn lemma_constructor_seeding_scenario(body: Body, cat: Seq<Contract>, ci: int, l: usize, fx: usize, op: u64, fields: Seq<Facts>, budget: nat)
    requires
        body_wf(body),
        body.blocks@.len() == 1,
        body.blocks@[0].term == (Terminator::Return),
        body.blocks@[0].stmts@.len() == 2,
        body.blocks@[0].stmts@[0] == (Stmt::LoadField { dst: l, field: fx }),
        (body.blocks@[0].stmts@[1] matches Stmt::SensitiveCall { op: o, name, args } && o == op && args@ == seq![l]),
        0 <= ci < cat.len(),
        cat[ci].op == op,
        cat[ci].kind == ContractKind::RequiresBounds,
        cat[ci].arg == 0,
        fields.len() == body.n_fields,
        fx < body.n_fields,
        l < body.n_locals,
    ensures
        spec_path_forward_check(body, cat, entry_state(body, fields), budget).2,
        spec_path_forward_check(body, cat, entry_state(body, fields), budget).0.len() == 1,
        fields[fx as int].bounds == TriFact::Established ==> spec_path_forward_check(
            body,
            cat,
            entry_state(body, fields),
            budget,
        ).0[0].passed.contains(cat[ci].name@),
        fields[fx as int].bounds == TriFact::Unknown ==> spec_path_forward_check(
            body,
            cat,
            entry_state(body, fields),
            budget,
        ).0[0].unknown.contains(cat[ci].name@),
{
    let entry = entry_state(body, fields);
    let init = spec_init_states(body, entry);
    assert(init.len() == 1 && init[0] == Option::Some(entry));
    assert(spec_round_upto(body, init, 0) == init);
    assert(spec_flow_block(body, 0, init) == init);
    assert(spec_round(body, init) == init);
    assert(spec_solve(body, init, budget) == (init, true));
    let st1 = spec_step(body.blocks@[0].stmts@[0], entry);
    assert(st1.locals == entry.locals.update(l as int, entry.fields[fx as int]));
    assert(st1.locals.len() == body.n_locals && st1.locals[l as int] == fields[fx as int]);
    let rs = spec_path_forward_check(body, cat, entry, budget).0;
    assert(rs == spec_results_upto(body, cat, init, 1));
    assert(spec_results_upto(body, cat, init, 0) == Seq::<CheckResultModel>::empty());
    match body.blocks@[0].stmts@[1] {
        Stmt::SensitiveCall { op: o, name, args } => {
            assert(spec_results_block(body, cat, 0, 2, st1) == Seq::<CheckResultModel>::empty());
            let entry1 = crate::matcher::spec_check_at(cat, op, name@, 0, 1, args@, st1);
            assert(spec_results_block(body, cat, 0, 1, st1) == seq![entry1] + Seq::<CheckResultModel>::empty());
            assert(spec_results_block(body, cat, 0, 0, entry) == spec_results_block(body, cat, 0, 1, st1));
            assert(rs =~= seq![entry1]);
            assert(args@[0] == l);
            if fields[fx as int].bounds == TriFact::Established {
                assert(spec_eval_contract(cat[ci], args@, st1) == Outcome::Satisfied);
                lemma_match_contains_outcome(cat, op, args@, st1, ci);
            }
            if fields[fx as int].bounds == TriFact::Unknown {
                assert(spec_eval_contract(cat[ci], args@, st1) == Outcome::Unknown);
                lemma_match_contains_outcome(cat, op, args@, st1, ci);
            }
        },
        _ => {},
    }
}

} // verus!
