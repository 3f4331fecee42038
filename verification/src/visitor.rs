//! The forward analyzer of one function body: a budget-bounded dataflow
//! walk over the control-flow graph. The state reaching each block is the
//! conservative join of the states along every incoming edge — forward
//! joins and loop back-edges alike — iterated in declaration order until a
//! fixed point or the budget is exhausted. Each sensitive call site is then
//! evaluated exactly once, against the joined state that reaches it, so a
//! contract is never reported Satisfied at a join point that any incoming
//! path leaves unestablished.
//!
//! The whole walk is specified by [`spec_path_forward_check`], so the
//! results of [`path_forward_check`] are a mathematical function of the
//! body, the catalog, the entry state and the budget alone.

use vstd::prelude::*;
use vstd::pervasive::VecAdditionalExecFns;

use crate::body::Body;
use crate::body::Stmt;
use crate::body::Terminator;
use crate::body::block_wf;
use crate::body::body_wf;
use crate::body::stmt_wf;
use crate::contracts::Contract;
use crate::contracts::collect_names_for_op;
use crate::facts::Facts;
use crate::facts::Provenance;
use crate::facts::TriFact;
use crate::facts::merge_facts;
use crate::matcher::CheckResult;
use crate::matcher::CheckResultModel;
use crate::matcher::match_contracts;
use crate::matcher::results_view;
use crate::matcher::spec_check_at;
use crate::matcher::spec_check_exhausted;
use crate::state::AbstractState;
use crate::state::StateModel;
use crate::state::clone_state;
use crate::state::merge_state;
use crate::state::merge_states;
use crate::state::states_eq;
use crate::state::unknown_fields;
use crate::state::unknown_fields_vec;

verus! {

/// The state's shape agrees with the body it is threaded through.
pub open spec fn state_wf(st: StateModel, body: Body) -> bool {
    st.locals.len() == body.n_locals && st.fields.len() == body.n_fields
}

/// The deterministic effect of one straight-line statement on the state.
/// A sensitive call reads the state without changing it.
pub open spec fn spec_step(s: Stmt, st: StateModel) -> StateModel {
    match s {
        Stmt::AssignConst { dst } => StateModel { locals: st.locals.update(dst as int, crate::facts::const_facts()), fields: st.fields },
        Stmt::AssignCopy { dst, src } => StateModel {
            locals: st.locals.update(dst as int, st.locals[src as int]),
            fields: st.fields,
        },
        Stmt::AssignExternal { dst } => StateModel {
            locals: st.locals.update(dst as int, crate::facts::external_facts()),
            fields: st.fields,
        },
        Stmt::Guard { target } => StateModel {
            locals: st.locals.update(
                target as int,
                Facts {
                    init: st.locals[target as int].init,
                    bounds: TriFact::Established,
                    prov: st.locals[target as int].prov,
                },
            ),
            fields: st.fields,
        },
        Stmt::StoreField { field, src } => StateModel {
            locals: st.locals,
            fields: st.fields.update(field as int, st.locals[src as int]),
        },
        Stmt::LoadField { dst, field } => StateModel {
            locals: st.locals.update(dst as int, st.fields[field as int]),
            fields: st.fields,
        },
        Stmt::SensitiveCall { op, name, args } => st,
    }
}

/// The facts a branch condition adds on the edge it guards: a bound on the
/// named local is established there.
pub open spec fn spec_guard(g: Option<usize>, st: StateModel) -> StateModel {
    match g {
        Option::None => st,
        Option::Some(l) => StateModel {
            locals: st.locals.update(
                l as int,
                Facts { init: st.locals[l as int].init, bounds: TriFact::Established, prov: st.locals[l as int].prov },
            ),
            fields: st.fields,
        },
    }
}

/// The state after running a block's statements from index `i` on.
pub open spec fn spec_block_exit(body: Body, blk: int, i: int, st: StateModel) -> StateModel
    decreases body.blocks@[blk].stmts@.len() - i,
{
    if !(0 <= blk < body.blocks@.len()) || !(0 <= i) || i >= body.blocks@[blk].stmts@.len() {
        st
    } else {
        spec_block_exit(body, blk, i + 1, spec_step(body.blocks@[blk].stmts@[i], st))
    }
}

/// The view of an optional per-block state.
pub open spec fn opt_state_view(o: Option<AbstractState>) -> Option<StateModel> {
    match o {
        Option::None => Option::None,
        Option::Some(a) => Option::Some(a@),
    }
}

/// The view of the per-block state table. `None` marks a block no explored
/// edge has reached yet.
pub open spec fn states_view(s: Seq<Option<AbstractState>>) -> Seq<Option<StateModel>> {
    s.map_values(|o: Option<AbstractState>| opt_state_view(o))
}

/// Every recorded per-block state has the body's shape.
pub open spec fn states_ok(s: Seq<Option<AbstractState>>, body: Body) -> bool {
    forall|j: int|
        0 <= j < s.len() ==> (match #[trigger] s[j] {
            Option::None => true,
            Option::Some(a) => state_wf(a@, body),
        })
}

/// Joins a state flowing along one edge into the target block's entry: the
/// first reaching edge records the state, every further one is merged with
/// the existing entry by the conservative join.
pub open spec fn join_into(states: Seq<Option<StateModel>>, t: int, st: StateModel) -> Seq<Option<StateModel>> {
    if !(0 <= t < states.len()) {
        states
    } else {
        match states[t] {
            Option::None => states.update(t, Option::Some(st)),
            Option::Some(x) => states.update(t, Option::Some(merge_state(x, st))),
        }
    }
}

/// Propagates one block's entry state (if any edge has reached it) through
/// its statements and out along its terminator's edges, the guarded edge
/// with the branch condition's facts added.
pub open spec fn spec_flow_block(body: Body, blk: int, states: Seq<Option<StateModel>>) -> Seq<Option<StateModel>> {
    if !(0 <= blk < body.blocks@.len()) || !(0 <= blk < states.len()) {
        states
    } else {
        match states[blk] {
            Option::None => states,
            Option::Some(st) => {
                let exit = spec_block_exit(body, blk, 0, st);
                match body.blocks@[blk].term {
                    Terminator::Return => states,
                    Terminator::Goto { target } => join_into(states, target as int, exit),
                    Terminator::Branch { guard, then_target, else_target } => join_into(
                        join_into(states, then_target as int, spec_guard(guard, exit)),
                        else_target as int,
                        exit,
                    ),
                }
            },
        }
    }
}

/// One propagation round: every block flowed once, in declaration order.
pub open spec fn spec_round_upto(body: Body, states: Seq<Option<StateModel>>, k: int) -> Seq<Option<StateModel>>
    decreases k,
{
    if k <= 0 {
        states
    } else {
        spec_flow_block(body, k - 1, spec_round_upto(body, states, k - 1))
    }
}

/// One propagation round over all blocks.
pub open spec fn spec_round(body: Body, states: Seq<Option<StateModel>>) -> Seq<Option<StateModel>> {
    spec_round_upto(body, states, body.blocks@.len() as int)
}

/// Iterates propagation rounds until a fixed point (the round changes
/// nothing — the solve is complete) or the round budget is exhausted (the
/// solve is incomplete). The budget is the sole termination guard; states
/// only ever lose information, so an adequate budget always reaches the
/// fixed point.
pub open spec fn spec_solve(body: Body, states: Seq<Option<StateModel>>, rounds: nat) -> (
    Seq<Option<StateModel>>,
    bool,
)
    decreases rounds,
{
    let next = spec_round(body, states);
    if next == states {
        (states, true)
    } else if rounds == 0 {
        (states, false)
    } else {
        spec_solve(body, next, (rounds - 1) as nat)
    }
}

/// The state table before any propagation: the entry state at the entry
/// block, nothing anywhere else.
pub open spec fn spec_init_states(body: Body, entry: StateModel) -> Seq<Option<StateModel>> {
    Seq::new(
        body.blocks@.len(),
        |i: int|
            if i == 0 {
                Option::Some(entry)
            } else {
                Option::None
            },
    )
}

/// The check results of one block, its sensitive calls from statement `i`
/// on each evaluated once, against the state the block run carries to it.
pub open spec fn spec_results_block(body: Body, cat: Seq<Contract>, blk: int, i: int, st: StateModel) -> Seq<
    CheckResultModel,
>
    decreases body.blocks@[blk].stmts@.len() - i,
{
    if !(0 <= blk < body.blocks@.len()) || !(0 <= i) || i >= body.blocks@[blk].stmts@.len() {
        Seq::empty()
    } else {
        match body.blocks@[blk].stmts@[i] {
            Stmt::SensitiveCall { op, name, args } => seq![spec_check_at(cat, op, name@, blk, i, args@, st)]
                + spec_results_block(body, cat, blk, i + 1, st),
            _ => spec_results_block(body, cat, blk, i + 1, spec_step(body.blocks@[blk].stmts@[i], st)),
        }
    }
}

/// The check results of the first `k` blocks, in declaration order; a
/// block no edge reaches contributes nothing.
pub open spec fn spec_results_upto(body: Body, cat: Seq<Contract>, states: Seq<Option<StateModel>>, k: int) -> Seq<
    CheckResultModel,
>
    decreases k,
{
    if k <= 0 {
        Seq::empty()
    } else {
        let rest = spec_results_upto(body, cat, states, k - 1);
        if !(0 <= k - 1 < states.len()) {
            rest
        } else {
            match states[k - 1] {
                Option::None => rest,
                Option::Some(st) => rest + spec_results_block(body, cat, k - 1, 0, st),
            }
        }
    }
}

/// The view of an optional exit-fields vector.
pub open spec fn opt_fields_view(o: Option<Vec<Facts>>) -> Option<Seq<Facts>> {
    match o {
        Option::None => Option::None,
        Option::Some(v) => Option::Some(v@),
    }
}

/// Two optional fields vectors can be merged: if both are present they have
/// one length.
pub open spec fn opt_same_len(a: Option<Seq<Facts>>, b: Option<Seq<Facts>>) -> bool {
    match a {
        Option::None => true,
        Option::Some(x) => match b {
            Option::None => true,
            Option::Some(y) => x.len() == y.len(),
        },
    }
}

/// Conservative join of the exit-field facts of two returning blocks. A
/// side that contributes nothing constrains nothing.
pub open spec fn opt_merge(a: Option<Seq<Facts>>, b: Option<Seq<Facts>>) -> Option<Seq<Facts>> {
    match a {
        Option::None => b,
        Option::Some(x) => match b {
            Option::None => a,
            Option::Some(y) => Option::Some(Seq::new(x.len(), |i: int| merge_facts(x[i], y[i]))),
        },
    }
}

/// If present, the fields vector has the body's field count.
pub open spec fn opt_field_len_ok(o: Option<Vec<Facts>>, body: Body) -> bool {
    match o {
        Option::None => true,
        Option::Some(v) => v@.len() == body.n_fields,
    }
}

/// The join of the field facts over the first `k` blocks that end in a
/// return, each taken after the block's statements ran on its reached
/// entry state: what a constructor's body establishes of its type's fields.
pub open spec fn spec_exit_fields_upto(body: Body, states: Seq<Option<StateModel>>, k: int) -> Option<Seq<Facts>>
    decreases k,
{
    if k <= 0 {
        Option::None
    } else {
        let rest = spec_exit_fields_upto(body, states, k - 1);
        if !(0 <= k - 1 < states.len()) {
            rest
        } else {
            match states[k - 1] {
                Option::None => rest,
                Option::Some(st) => match body.blocks@[k - 1].term {
                    Terminator::Return => opt_merge(rest, Option::Some(spec_block_exit(body, k - 1, 0, st).fields)),
                    _ => rest,
                },
            }
        }
    }
}

/// The all-unknown, incomplete check results for the sensitive calls of one
/// block from statement `i` on, in program order: what a budget-exhausted
/// solve reports in place of an evaluation.
pub open spec fn spec_block_unknowns(body: Body, cat: Seq<Contract>, blk: int, i: int) -> Seq<CheckResultModel>
    decreases body.blocks@[blk].stmts@.len() - i,
{
    if !(0 <= blk < body.blocks@.len()) || !(0 <= i) || i >= body.blocks@[blk].stmts@.len() {
        Seq::empty()
    } else {
        let rest = spec_block_unknowns(body, cat, blk, i + 1);
        match body.blocks@[blk].stmts@[i] {
            Stmt::SensitiveCall { op, name, args } => seq![spec_check_exhausted(cat, op, name@, blk, i)] + rest,
            _ => rest,
        }
    }
}

/// The all-unknown, incomplete reports for every block reachable from
/// `blk`, visiting successors depth-first in declaration order. `visited`
/// marks blocks already reported; `gas` is a recursion bound that the
/// block count always satisfies.
pub open spec fn spec_collect(body: Body, cat: Seq<Contract>, blk: int, visited: Seq<bool>, gas: nat) -> (
    Seq<CheckResultModel>,
    Seq<bool>,
)
    decreases gas,
{
    if gas == 0 || !(0 <= blk < body.blocks@.len()) || visited.len() != body.blocks@.len() || visited[blk] {
        (Seq::empty(), visited)
    } else {
        let v1 = visited.update(blk, true);
        let rs = spec_block_unknowns(body, cat, blk, 0);
        match body.blocks@[blk].term {
            Terminator::Return => (rs, v1),
            Terminator::Goto { target } => {
                let r2 = spec_collect(body, cat, target as int, v1, (gas - 1) as nat);
                (rs + r2.0, r2.1)
            },
            Terminator::Branch { guard, then_target, else_target } => {
                let r2 = spec_collect(body, cat, then_target as int, v1, (gas - 1) as nat);
                let r3 = spec_collect(body, cat, else_target as int, r2.1, (gas - 1) as nat);
                (rs + r2.0 + r3.0, r3.1)
            },
        }
    }
}

/// The full forward check of one body. The solve joins the state reaching
/// every block to its fixed point within the budget; then each sensitive
/// call is evaluated once, in program order, against the joined state that
/// reaches it. An exhausted budget instead reports every reachable call
/// all-unknown and marked incomplete, and degrades the exit fields to no
/// knowledge. The third component tells the two apart.
pub open spec fn spec_path_forward_check(body: Body, cat: Seq<Contract>, entry: StateModel, budget: nat) -> (
    Seq<CheckResultModel>,
    Option<Seq<Facts>>,
    bool,
) {
    let n = body.blocks@.len() as int;
    let solved = spec_solve(body, spec_init_states(body, entry), budget);
    if solved.1 {
        (
            spec_results_upto(body, cat, solved.0, n),
            spec_exit_fields_upto(body, solved.0, n),
            true,
        )
    } else {
        (
            spec_collect(body, cat, 0, Seq::new(body.blocks@.len(), |i: int| false), body.blocks@.len() as nat).0,
            Option::Some(unknown_fields(body.n_fields as nat)),
            false,
        )
    }
}

/// Executable join of optional exit-field vectors.
pub fn opt_merge_exec(a: Option<Vec<Facts>>, b: Option<Vec<Facts>>) -> (r: Option<Vec<Facts>>)
    requires
        opt_same_len(opt_fields_view(a), opt_fields_view(b)),
    ensures
        opt_fields_view(r) == opt_merge(opt_fields_view(a), opt_fields_view(b)),
{
    match a {
        Option::None => b,
        Option::Some(x) => match b {
            Option::None => Option::Some(x),
            Option::Some(y) => {
                let m = crate::state::merge_fact_vecs(&x, &y);
                proof {
                    assert(m@ =~= Seq::new(x@.len(), |i: int| merge_facts(x@[i], y@[i])));
                }
                Option::Some(m)
            },
        },
    }
}

/// Executable effect of one straight-line statement.
fn step_stmt(s: &Stmt, st: AbstractState) -> (r: AbstractState)
    requires
        stmt_wf(*s, st@.locals.len() as int, st@.fields.len() as int),
    ensures
        r@ =~= spec_step(*s, st@),
        r@.locals.len() == st@.locals.len(),
        r@.fields.len() == st@.fields.len(),
{
    let mut st = st;
    match s {
        Stmt::AssignConst { dst } => {
            st.locals.set(*dst, Facts { init: TriFact::Established, bounds: TriFact::Established, prov: Provenance::Constant });
        },
        Stmt::AssignCopy { dst, src } => {
            let f = st.locals[*src];
            st.locals.set(*dst, f);
        },
        Stmt::AssignExternal { dst } => {
            st.locals.set(*dst, Facts { init: TriFact::Established, bounds: TriFact::Unknown, prov: Provenance::Unresolved });
        },
        Stmt::Guard { target } => {
            let f = st.locals[*target];
            st.locals.set(*target, Facts { init: f.init, bounds: TriFact::Established, prov: f.prov });
        },
        Stmt::StoreField { field, src } => {
            let f = st.locals[*src];
            st.fields.set(*field, f);
        },
        Stmt::LoadField { dst, field } => {
            let f = st.fields[*field];
            st.locals.set(*dst, f);
        },
        Stmt::SensitiveCall { op, name, args } => {},
    }
    st
}

/// Executable effect of a branch condition on the guarded edge.
fn apply_guard(g: &Option<usize>, st: AbstractState) -> (r: AbstractState)
    requires
        (match *g {
            Option::Some(l) => l < st@.locals.len(),
            Option::None => true,
        }),
    ensures
        r@ =~= spec_guard(*g, st@),
        r@.locals.len() == st@.locals.len(),
        r@.fields.len() == st@.fields.len(),
{
    let mut st = st;
    match g {
        Option::None => {},
        Option::Some(l) => {
            let f = st.locals[*l];
            st.locals.set(*l, Facts { init: f.init, bounds: TriFact::Established, prov: f.prov });
        },
    }
    st
}

/// Executable block run: the state after a block's statements from `i` on.
fn block_exit_exec(body: &Body, blk: usize, i: usize, st: AbstractState) -> (r: AbstractState)
    requires
        body_wf(*body),
        blk < body.blocks@.len(),
        i <= body.blocks@[blk as int].stmts@.len(),
        state_wf(st@, *body),
    ensures
        r@ == spec_block_exit(*body, blk as int, i as int, st@),
        state_wf(r@, *body),
    decreases body.blocks@[blk as int].stmts@.len() - i,
{
    proof {
        assert(block_wf(body.blocks@[blk as int], body.blocks@.len() as int, body.n_locals as int, body.n_fields as int));
    }
    if i < body.blocks[blk].stmts.len() {
        let st2 = step_stmt(&body.blocks[blk].stmts[i], st);
        block_exit_exec(body, blk, i + 1, st2)
    } else {
        st
    }
}

/// Executable edge join into the state table.
fn join_into_exec(body: &Body, states: &mut Vec<Option<AbstractState>>, t: usize, st: AbstractState)
    requires
        t < old(states)@.len(),
        old(states)@.len() == body.blocks@.len(),
        states_ok(old(states)@, *body),
        state_wf(st@, *body),
    ensures
        final(states)@.len() == old(states)@.len(),
        states_ok(final(states)@, *body),
        states_view(final(states)@) == join_into(states_view(old(states)@), t as int, st@),
{
    let newv: Option<AbstractState> = match &states[t] {
        Option::None => Option::Some(st),
        Option::Some(x) => Option::Some(merge_states(x, &st)),
    };
    states.set(t, newv);
    proof {
        assert(states_view(states@) =~= join_into(states_view(old(states)@), t as int, st@));
    }
}

/// Executable propagation of one block's entry state along its edges.
fn flow_block_exec(body: &Body, blk: usize, states: &mut Vec<Option<AbstractState>>)
    requires
        body_wf(*body),
        blk < body.blocks@.len(),
        old(states)@.len() == body.blocks@.len(),
        states_ok(old(states)@, *body),
    ensures
        final(states)@.len() == old(states)@.len(),
        states_ok(final(states)@, *body),
        states_view(final(states)@) == spec_flow_block(*body, blk as int, states_view(old(states)@)),
{
    proof {
        assert(block_wf(body.blocks@[blk as int], body.blocks@.len() as int, body.n_locals as int, body.n_fields as int));
    }
    let mut entry_opt: Option<AbstractState> = Option::None;
    match &states[blk] {
        Option::None => {},
        Option::Some(s) => {
            entry_opt = Option::Some(clone_state(s));
        },
    }
    match entry_opt {
        Option::None => {},
        Option::Some(stc) => {
            let exit = block_exit_exec(body, blk, 0, stc);
            match &body.blocks[blk].term {
                Terminator::Return => {},
                Terminator::Goto { target } => {
                    join_into_exec(body, states, *target, exit);
                },
                Terminator::Branch { guard, then_target, else_target } => {
                    let ge = apply_guard(guard, clone_state(&exit));
                    join_into_exec(body, states, *then_target, ge);
                    join_into_exec(body, states, *else_target, exit);
                },
            }
        },
    }
}

/// Copy of the state table, so that a round can be compared against the
/// table it started from.
fn clone_states(s: &Vec<Option<AbstractState>>) -> (r: Vec<Option<AbstractState>>)
    ensures
        r@.len() == s@.len(),
        states_view(r@) == states_view(s@),
        forall|j: int|
            0 <= j < s@.len() ==> (match #[trigger] r@[j] {
                Option::None => s@[j] is None,
                Option::Some(a) => (s@[j] matches Option::Some(b) && a@ == b@),
            }),
{
    let mut out: Vec<Option<AbstractState>> = Vec::new();
    let mut i: usize = 0;
    while i < s.len()
        invariant
            i <= s@.len(),
            out@.len() == i,
            forall|j: int|
                0 <= j < i ==> (match #[trigger] out@[j] {
                    Option::None => s@[j] is None,
                    Option::Some(a) => (s@[j] matches Option::Some(b) && a@ == b@),
                }),
        decreases s@.len() - i,
    {
        let e: Option<AbstractState> = match &s[i] {
            Option::None => Option::None,
            Option::Some(a) => Option::Some(clone_state(a)),
        };
        out.push(e);
        i = i + 1;
    }
    proof {
        assert(states_view(out@) =~= states_view(s@));
    }
    out
}

/// Decides equality of two state tables, for fixed-point detection.
fn state_tables_eq(a: &Vec<Option<AbstractState>>, b: &Vec<Option<AbstractState>>) -> (r: bool)
    ensures
        r <==> states_view(a@) == states_view(b@),
{
    if a.len() != b.len() {
        proof {
            assert(states_view(a@).len() != states_view(b@).len());
        }
        return false;
    }
    let mut i: usize = 0;
    while i < a.len()
        invariant
            i <= a@.len(),
            a@.len() == b@.len(),
            forall|j: int| 0 <= j < i ==> states_view(a@)[j] == states_view(b@)[j],
        decreases a@.len() - i,
    {
        let same: bool = match (&a[i], &b[i]) {
            (Option::None, Option::None) => true,
            (Option::Some(x), Option::Some(y)) => states_eq(x, y),
            _ => false,
        };
        if !same {
            proof {
                assert(states_view(a@)[i as int] != states_view(b@)[i as int]);
            }
            return false;
        }
        i = i + 1;
    }
    proof {
        assert(states_view(a@) =~= states_view(b@));
    }
    true
}

/// Executable propagation round over all blocks, in declaration order.
fn flow_round_exec(body: &Body, states: &Vec<Option<AbstractState>>) -> (r: Vec<Option<AbstractState>>)
    requires
        body_wf(*body),
        states@.len() == body.blocks@.len(),
        states_ok(states@, *body),
    ensures
        r@.len() == states@.len(),
        states_ok(r@, *body),
        states_view(r@) == spec_round(*body, states_view(states@)),
{
    let mut out = clone_states(states);
    let ghost init = states_view(states@);
    let mut k: usize = 0;
    while k < body.blocks.len()
        invariant
            body_wf(*body),
            k <= body.blocks@.len(),
            states@.len() == body.blocks@.len(),
            out@.len() == body.blocks@.len(),
            states_ok(out@, *body),
            init == states_view(states@),
            states_view(out@) == spec_round_upto(*body, init, k as int),
        decreases body.blocks@.len() - k,
    {
        flow_block_exec(body, k, &mut out);
        k = k + 1;
    }
    out
}

/// The state table before any propagation.
fn initial_states(body: &Body, entry: AbstractState) -> (r: Vec<Option<AbstractState>>)
    requires
        state_wf(entry@, *body),
    ensures
        r@.len() == body.blocks@.len(),
        states_ok(r@, *body),
        states_view(r@) == spec_init_states(*body, entry@),
{
    let mut out: Vec<Option<AbstractState>> = Vec::new();
    out.push(Option::Some(entry));
    let mut i: usize = 1;
    while i < body.blocks.len()
        invariant
            1 <= i,
            i <= body.blocks@.len() || body.blocks@.len() == 0,
            out@.len() == i,
            (out@[0] matches Option::Some(a) && a@ == entry@),
            state_wf(entry@, *body),
            forall|j: int| 1 <= j < i ==> (#[trigger] out@[j]) is None,
        decreases body.blocks@.len() - i,
    {
        out.push(Option::None);
        i = i + 1;
    }
    if body.blocks.len() == 0 {
        let mut empty_out: Vec<Option<AbstractState>> = Vec::new();
        proof {
            assert(states_view(empty_out@) =~= spec_init_states(*body, entry@));
        }
        return empty_out;
    }
    proof {
        assert(states_view(out@) =~= spec_init_states(*body, entry@));
    }
    out
}

/// Executable fixed-point solve under the round budget.
fn solve(body: &Body, init: Vec<Option<AbstractState>>, rounds: usize) -> (r: (Vec<Option<AbstractState>>, bool))
    requires
        body_wf(*body),
        init@.len() == body.blocks@.len(),
        states_ok(init@, *body),
    ensures
        r.0@.len() == body.blocks@.len(),
        states_ok(r.0@, *body),
        (states_view(r.0@), r.1) == spec_solve(*body, states_view(init@), rounds as nat),
{
    let mut cur = init;
    let mut r: usize = rounds;
    loop
        invariant
            body_wf(*body),
            cur@.len() == body.blocks@.len(),
            states_ok(cur@, *body),
            spec_solve(*body, states_view(cur@), r as nat) == spec_solve(*body, states_view(init@), rounds as nat),
        decreases r,
    {
        let next = flow_round_exec(body, &cur);
        if state_tables_eq(&next, &cur) {
            return (cur, true);
        }
        if r == 0 {
            return (cur, false);
        }
        cur = next;
        r = r - 1;
    }
}

/// Executable evaluation of one block's sensitive calls from statement `i`
/// on, each against the running state.
fn results_block(body: &Body, cat: &Vec<Contract>, blk: usize, i: usize, st: AbstractState) -> (r: Vec<CheckResult>)
    requires
        body_wf(*body),
        blk < body.blocks@.len(),
        i <= body.blocks@[blk as int].stmts@.len(),
        state_wf(st@, *body),
    ensures
        results_view(r@) =~= spec_results_block(*body, cat@, blk as int, i as int, st@),
    decreases body.blocks@[blk as int].stmts@.len() - i,
{
    proof {
        assert(block_wf(body.blocks@[blk as int], body.blocks@.len() as int, body.n_locals as int, body.n_fields as int));
    }
    if i < body.blocks[blk].stmts.len() {
        match &body.blocks[blk].stmts[i] {
            Stmt::SensitiveCall { op, name, args } => {
                let lists = match_contracts(cat, *op, args, &st);
                let entry = CheckResult {
                    op: *op,
                    op_name: name.clone(),
                    block: blk,
                    stmt: i,
                    passed: lists.0,
                    failed: lists.1,
                    unknown: lists.2,
                    complete: true,
                };
                let rest = results_block(body, cat, blk, i + 1, st);
                let mut rs = rest;
                rs.insert(0, entry);
                proof {
                    assert(results_view(rs@) =~= spec_results_block(*body, cat@, blk as int, i as int, st@));
                }
                rs
            },
            _ => {
                let st2 = step_stmt(&body.blocks[blk].stmts[i], st);
                results_block(body, cat, blk, i + 1, st2)
            },
        }
    } else {
        Vec::new()
    }
}

/// Executable result pass over the solved state table, blocks in
/// declaration order.
fn results_pass(body: &Body, cat: &Vec<Contract>, states: &Vec<Option<AbstractState>>) -> (r: Vec<CheckResult>)
    requires
        body_wf(*body),
        states@.len() == body.blocks@.len(),
        states_ok(states@, *body),
    ensures
        results_view(r@) =~= spec_results_upto(*body, cat@, states_view(states@), body.blocks@.len() as int),
{
    let mut out: Vec<CheckResult> = Vec::new();
    let mut k: usize = 0;
    while k < body.blocks.len()
        invariant
            body_wf(*body),
            k <= body.blocks@.len(),
            states@.len() == body.blocks@.len(),
            states_ok(states@, *body),
            results_view(out@) =~= spec_results_upto(*body, cat@, states_view(states@), k as int),
        decreases body.blocks@.len() - k,
    {
        match &states[k] {
            Option::None => {},
            Option::Some(st0) => {
                let stc = clone_state(st0);
                let mut rs = results_block(body, cat, k, 0, stc);
                out.append(&mut rs);
            },
        }
        k = k + 1;
        proof {
            assert(results_view(out@) =~= spec_results_upto(*body, cat@, states_view(states@), k as int));
        }
    }
    out
}

/// Executable exit-fields pass: the join of the field facts of every
/// reachable returning block.
fn exit_fields_pass(body: &Body, states: &Vec<Option<AbstractState>>) -> (r: Option<Vec<Facts>>)
    requires
        body_wf(*body),
        states@.len() == body.blocks@.len(),
        states_ok(states@, *body),
    ensures
        opt_fields_view(r) == spec_exit_fields_upto(*body, states_view(states@), body.blocks@.len() as int),
        opt_field_len_ok(r, *body),
{
    let mut acc: Option<Vec<Facts>> = Option::None;
    let mut k: usize = 0;
    while k < body.blocks.len()
        invariant
            body_wf(*body),
            k <= body.blocks@.len(),
            states@.len() == body.blocks@.len(),
            states_ok(states@, *body),
            opt_fields_view(acc) == spec_exit_fields_upto(*body, states_view(states@), k as int),
            opt_field_len_ok(acc, *body),
        decreases body.blocks@.len() - k,
    {
        match &states[k] {
            Option::None => {},
            Option::Some(st0) => {
                match &body.blocks[k].term {
                    Terminator::Return => {
                        let stc = clone_state(st0);
                        let exit = block_exit_exec(body, k, 0, stc);
                        acc = opt_merge_exec(acc, Option::Some(exit.fields));
                    },
                    _ => {},
                }
            },
        }
        k = k + 1;
        proof {
            assert(opt_fields_view(acc) == spec_exit_fields_upto(*body, states_view(states@), k as int));
        }
    }
    acc
}

/// A vector of `n` unset marks.
fn false_vec(n: usize) -> (r: Vec<bool>)
    ensures
        r@ =~= Seq::new(n as nat, |i: int| false),
{
    let mut out: Vec<bool> = Vec::new();
    let mut i: usize = 0;
    while i < n
        invariant
            i <= n,
            out@.len() == i,
            forall|j: int| 0 <= j < i ==> out@[j] == false,
        decreases n - i,
    {
        out.push(false);
        i = i + 1;
    }
    out
}

/// Executable all-unknown, incomplete reports for one block's sensitive
/// calls from statement `i` on.
fn block_unknowns(body: &Body, cat: &Vec<Contract>, blk: usize, i: usize) -> (r: Vec<CheckResult>)
    requires
        blk < body.blocks@.len(),
        i <= body.blocks@[blk as int].stmts@.len(),
    ensures
        results_view(r@) =~= spec_block_unknowns(*body, cat@, blk as int, i as int),
    decreases body.blocks@[blk as int].stmts@.len() - i,
{
    if i >= body.blocks[blk].stmts.len() {
        return Vec::new();
    }
    match &body.blocks[blk].stmts[i] {
        Stmt::SensitiveCall { op, name, args } => {
            let mut rest = block_unknowns(body, cat, blk, i + 1);
            let entry = CheckResult {
                op: *op,
                op_name: name.clone(),
                block: blk,
                stmt: i,
                passed: Vec::new(),
                failed: Vec::new(),
                unknown: collect_names_for_op(cat, *op),
                complete: false,
            };
            proof {
                assert(entry@ =~= spec_check_exhausted(cat@, *op, name@, blk as int, i as int));
            }
            rest.insert(0, entry);
            proof {
                assert(results_view(rest@) =~= spec_block_unknowns(*body, cat@, blk as int, i as int));
            }
            rest
        },
        _ => block_unknowns(body, cat, blk, i + 1),
    }
}

/// Executable depth-first all-unknown reporting for every block reachable
/// from `blk`.
fn collect_unknown(body: &Body, cat: &Vec<Contract>, blk: usize, visited: Vec<bool>, gas: usize) -> (r: (
    Vec<CheckResult>,
    Vec<bool>,
))
    requires
        body_wf(*body),
        blk < body.blocks@.len(),
        visited@.len() == body.blocks@.len(),
    ensures
        results_view(r.0@) =~= spec_collect(*body, cat@, blk as int, visited@, gas as nat).0,
        r.1@ == spec_collect(*body, cat@, blk as int, visited@, gas as nat).1,
        r.1@.len() == visited@.len(),
    decreases gas,
{
    if gas == 0 || visited[blk] {
        return (Vec::new(), visited);
    }
    let mut v1 = visited;
    v1.set(blk, true);
    let mut rs = block_unknowns(body, cat, blk, 0);
    proof {
        assert(block_wf(body.blocks@[blk as int], body.blocks@.len() as int, body.n_locals as int, body.n_fields as int));
    }
    match &body.blocks[blk].term {
        Terminator::Return => (rs, v1),
        Terminator::Goto { target } => {
            let r2 = collect_unknown(body, cat, *target, v1, gas - 1);
            let mut rs2 = r2.0;
            rs.append(&mut rs2);
            proof {
                assert(results_view(rs@) =~= spec_collect(*body, cat@, blk as int, visited@, gas as nat).0);
            }
            (rs, r2.1)
        },
        Terminator::Branch { guard, then_target, else_target } => {
            let r2 = collect_unknown(body, cat, *then_target, v1, gas - 1);
            let r3 = collect_unknown(body, cat, *else_target, r2.1, gas - 1);
            let mut rs2 = r2.0;
            let mut rs3 = r3.0;
            rs.append(&mut rs2);
            rs.append(&mut rs3);
            proof {
                assert(results_view(rs@) =~= spec_collect(*body, cat@, blk as int, visited@, gas as nat).0);
            }
            (rs, r3.1)
        },
    }
}

/// Analyzes one body: solves the per-block entry states to their fixed
/// point under the conservative join, within the round budget, then
/// evaluates every sensitive call site exactly once against the joined
/// state reaching it, in program order. Returns the results, the join of
/// the field facts over all reachable returning blocks (the
/// constructor-derived invariant when the body is a constructor's), and
/// whether the solve completed — an exhausted budget instead yields every
/// reachable call all-unknown and marked incomplete.
pub fn path_forward_check(body: &Body, cat: &Vec<Contract>, entry: AbstractState, budget: usize) -> (r: (
    Vec<CheckResult>,
    Option<Vec<Facts>>,
    bool,
))
    requires
        body_wf(*body),
        state_wf(entry@, *body),
    ensures
        results_view(r.0@) =~= spec_path_forward_check(*body, cat@, entry@, budget as nat).0,
        opt_fields_view(r.1) == spec_path_forward_check(*body, cat@, entry@, budget as nat).1,
        r.2 == spec_path_forward_check(*body, cat@, entry@, budget as nat).2,
        opt_field_len_ok(r.1, *body),
{
    let init = initial_states(body, entry);
    let solved = solve(body, init, budget);
    if solved.1 {
        let rs = results_pass(body, cat, &solved.0);
        let ef = exit_fields_pass(body, &solved.0);
        (rs, ef, true)
    } else {
        let n = body.blocks.len();
        let visited = false_vec(n);
        proof {
            assert(visited@ =~= Seq::new(body.blocks@.len(), |i: int| false));
        }
        let rs = collect_unknown(body, cat, 0, visited, n);
        let uf = unknown_fields_vec(body.n_fields);
        (rs.0, Option::Some(uf), false)
    }
}

} // verus!
