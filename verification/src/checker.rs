//! The orchestrator: selects what to run for each candidate function,
//! resolves its role, derives constructor invariants for
//! constructor-associated functions (when seeding is enabled), runs the
//! join-based forward check, and aggregates structured reports for the
//! caller's reporting layer.

use vstd::prelude::*;

use crate::body::Body;
use crate::body::body_wf;
use crate::body::is_body_wf;
use crate::contracts::Contract;
use crate::facts::Facts;
use crate::facts::Provenance;
use crate::facts::TriFact;
use crate::facts::param_facts;
use crate::facts::uninit_facts;
use crate::matcher::CheckResult;
use crate::matcher::CheckResultModel;
use crate::matcher::results_view;
use crate::program::FunctionInfo;
use crate::program::Program;
use crate::program::Role;
use crate::program::constructors_of;
use crate::program::role_of;
use crate::program::spec_constructors;
use crate::program::spec_role;
use crate::state::AbstractState;
use crate::state::StateModel;
use crate::state::unknown_fields;
use crate::state::unknown_fields_vec;
use crate::visitor::opt_fields_view;
use crate::visitor::opt_merge;
use crate::visitor::opt_merge_exec;
use crate::visitor::path_forward_check;
use crate::visitor::spec_path_forward_check;
use crate::visitor::state_wf;

verus! {

/// Why one function could not be analyzed. One function's failure never
/// affects another's analysis.
#[derive(Clone, Copy, PartialEq, Eq, Structural, Debug)]
pub enum AnalyzeError {
    /// No function with the given identifier exists.
    MissingBody,
    /// The function's control-flow graph is malformed; the function is
    /// skipped and reported unanalyzable.
    MalformedBody,
}

/// Which entry point produced a report: a soundness-of-use check for a body
/// with sensitive operations, or a safety-annotation pass for a function
/// itself marked as operating under relaxed guarantees. Both run the same
/// body walk; the interpretation is the reporting layer's.
#[derive(Clone, Copy, PartialEq, Eq, Structural, Debug)]
pub enum ReportKind {
    Soundness,
    SafetyAnnotation,
}

/// The mathematical model of a [`FunctionReport`].
#[verifier::ext_equal]
pub ghost struct FunctionReportModel {
    pub func: int,
    pub kind: ReportKind,
    pub outcome: Result<Seq<CheckResultModel>, AnalyzeError>,
}

/// One entry of the run's aggregated output: the function, the entry point
/// that reported it, and either its non-empty check results or the reason
/// it was unanalyzable.
pub struct FunctionReport {
    pub func: usize,
    pub kind: ReportKind,
    pub outcome: Result<Vec<CheckResult>, AnalyzeError>,
}

impl View for FunctionReport {
    type V = FunctionReportModel;

    open spec fn view(&self) -> FunctionReportModel {
        FunctionReportModel {
            func: self.func as int,
            kind: self.kind,
            outcome: (match self.outcome {
                Result::Ok(v) => Result::Ok(results_view(v@)),
                Result::Err(e) => Result::Err(e),
            }),
        }
    }
}

/// The view of a sequence of reports.
pub open spec fn reports_view(s: Seq<FunctionReport>) -> Seq<FunctionReportModel> {
    s.map_values(|r: FunctionReport| r@)
}

/// The facts of local `i` at function entry: parameters hold values of
/// argument provenance, all other locals are definitely unassigned.
pub open spec fn entry_local_facts(i: int, n_params: int) -> Facts {
    if i < n_params {
        param_facts()
    } else {
        uninit_facts()
    }
}

/// The abstract state at function entry, over the given field facts.
pub open spec fn entry_state(body: Body, fields: Seq<Facts>) -> StateModel {
    StateModel {
        locals: Seq::new(body.n_locals as nat, |i: int| entry_local_facts(i, body.n_params as int)),
        fields,
    }
}

/// Builds the executable entry state for a body over the given field facts.
pub fn mk_entry_state(body: &Body, fields: Vec<Facts>) -> (r: AbstractState)
    requires
        fields@.len() == body.n_fields,
    ensures
        r@ =~= entry_state(*body, fields@),
        state_wf(r@, *body),
{
    let mut locals: Vec<Facts> = Vec::new();
    let mut i: usize = 0;
    while i < body.n_locals
        invariant
            i <= body.n_locals,
            locals@.len() == i,
            forall|j: int| 0 <= j < i ==> locals@[j] == entry_local_facts(j, body.n_params as int),
        decreases body.n_locals - i,
    {
        if i < body.n_params {
            locals.push(
                Facts {
                    init: TriFact::Established,
                    bounds: TriFact::Unknown,
                    prov: Provenance::Argument,
                },
            );
        } else {
            locals.push(
                Facts {
                    init: TriFact::Refuted,
                    bounds: TriFact::Refuted,
                    prov: Provenance::Unresolved,
                },
            );
        }
        i = i + 1;
    }
    let r = AbstractState { locals, fields };
    proof {
        assert(r@.locals =~= entry_state(*body, fields@).locals);
        assert(r@ =~= entry_state(*body, fields@));
    }
    r
}

/// The field facts one constructor contributes to its type's invariant: the
/// merged exit-field facts of its forward check. A constructor that cannot
/// be analyzed, or whose field count disagrees with the method's, degrades
/// to no knowledge; one that never returns constrains nothing.
pub open spec fn spec_ctor_fields(funcs: Seq<FunctionInfo>, ci: int, cat: Seq<Contract>, budget: nat, nf: nat) -> Option<
    Seq<Facts>,
> {
    if !(0 <= ci < funcs.len()) {
        Option::None
    } else {
        let b = funcs[ci].body;
        if !body_wf(b) || b.n_fields != nf {
            Option::Some(unknown_fields(nf))
        } else {
            spec_path_forward_check(b, cat, entry_state(b, unknown_fields(b.n_fields as nat)), budget).1
        }
    }
}

/// The conservative join of the contributions of the first `k`
/// constructors: a fact survives only where every contributing constructor
/// establishes it.
pub open spec fn spec_ctor_fold(funcs: Seq<FunctionInfo>, cons: Seq<int>, k: int, cat: Seq<Contract>, budget: nat, nf: nat) -> Option<
    Seq<Facts>,
>
    decreases k,
{
    if k <= 0 {
        Option::None
    } else {
        opt_merge(
            spec_ctor_fold(funcs, cons, k - 1, cat, budget, nf),
            spec_ctor_fields(funcs, cons[k - 1], cat, budget, nf),
        )
    }
}

/// The invariant field facts seeded into a method of type `t`: the join
/// over all of the type's constructors, or no knowledge where the type has
/// no contributing constructor.
pub open spec fn spec_seed_fields(p: Program, t: u64, cat: Seq<Contract>, budget: nat, nf: nat) -> Seq<Facts> {
    let cons = spec_constructors(p.functions@, t);
    match spec_ctor_fold(p.functions@, cons, cons.len() as int, cat, budget, nf) {
        Option::None => unknown_fields(nf),
        Option::Some(v) => v,
    }
}

/// The field facts a function's analysis starts from: constructor-derived
/// invariants for a constructor-associated function when seeding is
/// enabled, no knowledge otherwise.
pub open spec fn spec_entry_fields(p: Program, cat: Seq<Contract>, budget: nat, seed: bool, info: FunctionInfo) -> Seq<
    Facts,
> {
    match spec_role(info) {
        Role::Plain => unknown_fields(info.body.n_fields as nat),
        Role::ConstructorAssociated { owning_type } => if seed {
            spec_seed_fields(p, owning_type, cat, budget, info.body.n_fields as nat)
        } else {
            unknown_fields(info.body.n_fields as nat)
        },
    }
}

/// The complete check results of analyzing function `f`: a mathematical
/// function of the program, the catalog, the budget and the seeding
/// configuration — nothing else.
pub open spec fn spec_analyze(p: Program, cat: Seq<Contract>, budget: nat, seed: bool, f: int) -> Seq<CheckResultModel> {
    let info = p.functions@[f];
    spec_path_forward_check(
        info.body,
        cat,
        entry_state(info.body, spec_entry_fields(p, cat, budget, seed, info)),
        budget,
    ).0
}

/// The soundness checker. Every analysis reads this configuration through
/// a shared reference and mutates nothing, and every entry point's
/// contract pins its output to [`spec_analyze`] of the configuration and
/// the function index alone — so analyzing one function is invisible to
/// every other, and the order in which functions are analyzed cannot
/// change any individual result.
pub struct SenryxCheck {
    /// The candidate functions, from the external collection pass.
    pub program: Program,
    /// The registered contracts.
    pub catalog: Vec<Contract>,
    /// The exploration budget per function body.
    pub threshold: usize,
    /// Whether constructor-derived field invariants seed a method's entry
    /// state.
    pub seed_invariants: bool,
}

impl SenryxCheck {
    /// A checker over the given program and contract catalog, with the
    /// given exploration budget. Constructor seeding starts disabled.
    pub fn new(program: Program, catalog: Vec<Contract>, threshold: usize) -> (r: Self)
        ensures
            r.program == program,
            r.catalog == catalog,
            r.threshold == threshold,
            r.seed_invariants == false,
    {
        SenryxCheck { program, catalog, threshold, seed_invariants: false }
    }

    /// Turns constructor-invariant seeding on or off.
    pub fn set_seeding(&mut self, on: bool)
        ensures
            final(self).program == old(self).program,
            final(self).catalog == old(self).catalog,
            final(self).threshold == old(self).threshold,
            final(self).seed_invariants == on,
    {
        self.seed_invariants = on;
    }

    /// Analyzes one function body: resolves its role, seeds the entry state
    /// from its type's constructors where configured, and runs the forward
    /// check. Returns the complete result list; an empty list means nothing
    /// to report. Fails only for a missing or malformed body, and reports
    /// that instead of aborting.
    ///
    /// The contract below pins the result to [`spec_analyze`], a
    /// mathematical function of the program, the catalog, the budget and
    /// the seeding configuration — that is the determinism guarantee: two
    /// calls on an unchanged checker provably return identical result
    /// sequences, in the same order.
    pub fn body_visit_and_check(&self, f: usize) -> (r: Result<Vec<CheckResult>, AnalyzeError>)
        ensures
            f >= self.program.functions@.len() ==> (r matches Result::Err(AnalyzeError::MissingBody)),
            f < self.program.functions@.len() && !body_wf(self.program.functions@[f as int].body) ==> (r
                matches Result::Err(AnalyzeError::MalformedBody)),
            f < self.program.functions@.len() && body_wf(self.program.functions@[f as int].body) ==> (r
                matches Result::Ok(v) && results_view(v@) =~= spec_analyze(
                self.program,
                self.catalog@,
                self.threshold as nat,
                self.seed_invariants,
                f as int,
            )),
    {
        if f >= self.program.functions.len() {
            return Result::Err(AnalyzeError::MissingBody);
        }
        let info = &self.program.functions[f];
        if !is_body_wf(&info.body) {
            return Result::Err(AnalyzeError::MalformedBody);
        }
        let nf = info.body.n_fields;
        let role = role_of(info);
        let fields0: Vec<Facts> = match role {
            Role::Plain => unknown_fields_vec(nf),
            Role::ConstructorAssociated { owning_type } => {
                if self.seed_invariants {
                    self.seeded_fields(owning_type, nf)
                } else {
                    unknown_fields_vec(nf)
                }
            },
        };
        proof {
            assert(fields0@ =~= spec_entry_fields(
                self.program,
                self.catalog@,
                self.threshold as nat,
                self.seed_invariants,
                self.program.functions@[f as int],
            ));
        }
        let entry = mk_entry_state(&info.body, fields0);
        let rr = path_forward_check(&info.body, &self.catalog, entry, self.threshold);
        Result::Ok(rr.0)
    }

    /// The join of the field facts established by every constructor of type
    /// `t`, for seeding a method's entry state.
    fn seeded_fields(&self, t: u64, nf: usize) -> (r: Vec<Facts>)
        ensures
            r@ =~= spec_seed_fields(self.program, t, self.catalog@, self.threshold as nat, nf as nat),
            r@.len() == nf,
    {
        let cons = constructors_of(&self.program, t);
        let mut acc: Option<Vec<Facts>> = Option::None;
        let mut k: usize = 0;
        while k < cons.len()
            invariant
                k <= cons@.len(),
                cons@.map_values(|x: usize| x as int) =~= spec_constructors(self.program.functions@, t),
                forall|j: int| 0 <= j < cons@.len() ==> (#[trigger] cons@[j]) < self.program.functions@.len(),
                opt_fields_view(acc) == spec_ctor_fold(
                    self.program.functions@,
                    cons@.map_values(|x: usize| x as int),
                    k as int,
                    self.catalog@,
                    self.threshold as nat,
                    nf as nat,
                ),
                (match acc {
                    Option::None => true,
                    Option::Some(v) => v@.len() == nf,
                }),
            decreases cons@.len() - k,
        {
            let ci = cons[k];
            let cf = &self.program.functions[ci];
            let part: Option<Vec<Facts>> = if !is_body_wf(&cf.body) || cf.body.n_fields != nf {
                Option::Some(unknown_fields_vec(nf))
            } else {
                let entry = mk_entry_state(&cf.body, unknown_fields_vec(cf.body.n_fields));
                let rr = path_forward_check(&cf.body, &self.catalog, entry, self.threshold);
                rr.1
            };
            proof {
                assert(opt_fields_view(part) == spec_ctor_fields(
                    self.program.functions@,
                    ci as int,
                    self.catalog@,
                    self.threshold as nat,
                    nf as nat,
                ));
            }
            acc = opt_merge_exec(acc, part);
            k = k + 1;
        }
        match acc {
            Option::None => unknown_fields_vec(nf),
            Option::Some(v) => v,
        }
    }

    /// The soundness-of-use entry point, for a function whose body contains
    /// a sensitive operation at block granularity. Runs the shared body
    /// analysis; the caller reports non-empty results.
    pub fn check_soundness(&self, f: usize) -> (r: Result<Vec<CheckResult>, AnalyzeError>)
        ensures
            f >= self.program.functions@.len() ==> (r matches Result::Err(AnalyzeError::MissingBody)),
            f < self.program.functions@.len() && !body_wf(self.program.functions@[f as int].body) ==> (r
                matches Result::Err(AnalyzeError::MalformedBody)),
            f < self.program.functions@.len() && body_wf(self.program.functions@[f as int].body) ==> (r
                matches Result::Ok(v) && results_view(v@) =~= spec_analyze(
                self.program,
                self.catalog@,
                self.threshold as nat,
                self.seed_invariants,
                f as int,
            )),
    {
        self.body_visit_and_check(f)
    }

    /// The safety-annotation entry point, for a function itself marked as
    /// operating under relaxed guarantees. Deliberately the same body walk
    /// as [`Self::check_soundness`]: the two differ only in how the
    /// reporting layer interprets the results.
    pub fn annotate_safety(&self, f: usize) -> (r: Result<Vec<CheckResult>, AnalyzeError>)
        ensures
            f >= self.program.functions@.len() ==> (r matches Result::Err(AnalyzeError::MissingBody)),
            f < self.program.functions@.len() && !body_wf(self.program.functions@[f as int].body) ==> (r
                matches Result::Err(AnalyzeError::MalformedBody)),
            f < self.program.functions@.len() && body_wf(self.program.functions@[f as int].body) ==> (r
                matches Result::Ok(v) && results_view(v@) =~= spec_analyze(
                self.program,
                self.catalog@,
                self.threshold as nat,
                self.seed_invariants,
                f as int,
            )),
    {
        self.body_visit_and_check(f)
    }
}

/// The reports of one function: a soundness report where the body holds a
/// sensitive operation, then a safety-annotation report where the function
/// is marked, each only when the analysis found something or the body was
/// unanalyzable.
pub open spec fn spec_report_for(p: Program, cat: Seq<Contract>, budget: nat, seed: bool, kind: ReportKind, f: int) -> Seq<
    FunctionReportModel,
> {
    if !body_wf(p.functions@[f].body) {
        seq![FunctionReportModel { func: f, kind, outcome: Result::Err(AnalyzeError::MalformedBody) }]
    } else {
        let rs = spec_analyze(p, cat, budget, seed, f);
        if rs.len() == 0 {
            Seq::empty()
        } else {
            seq![FunctionReportModel { func: f, kind, outcome: Result::Ok(rs) }]
        }
    }
}

/// The aggregated reports over the first `k` candidate functions, in
/// declaration order.
pub open spec fn spec_start(p: Program, cat: Seq<Contract>, budget: nat, seed: bool, k: int) -> Seq<
    FunctionReportModel,
>
    decreases k,
{
    if k <= 0 {
        Seq::empty()
    } else {
        let info = p.functions@[k - 1];
        let sound = if info.block_unsafe {
            spec_report_for(p, cat, budget, seed, ReportKind::Soundness, k - 1)
        } else {
            Seq::empty()
        };
        let annot = if info.function_unsafe {
            spec_report_for(p, cat, budget, seed, ReportKind::SafetyAnnotation, k - 1)
        } else {
            Seq::empty()
        };
        spec_start(p, cat, budget, seed, k - 1) + sound + annot
    }
}

impl SenryxCheck {
    /// Walks every candidate function in declaration order: functions whose
    /// bodies hold sensitive operations get a soundness check, functions
    /// marked at function level a safety-annotation pass, and the non-empty
    /// or unanalyzable outcomes are aggregated for the reporting layer.
    /// One function's failure never blocks the next.
    pub fn start(&self) -> (r: Vec<FunctionReport>)
        ensures
            reports_view(r@) =~= spec_start(
                self.program,
                self.catalog@,
                self.threshold as nat,
                self.seed_invariants,
                self.program.functions@.len() as int,
            ),
    {
        let mut out: Vec<FunctionReport> = Vec::new();
        let mut f: usize = 0;
        while f < self.program.functions.len()
            invariant
                f <= self.program.functions@.len(),
                reports_view(out@) =~= spec_start(
                    self.program,
                    self.catalog@,
                    self.threshold as nat,
                    self.seed_invariants,
                    f as int,
                ),
            decreases self.program.functions@.len() - f,
        {
            if self.program.functions[f].block_unsafe {
                match self.check_soundness(f) {
                    Result::Ok(v) => {
                        if v.len() > 0 {
                            out.push(FunctionReport { func: f, kind: ReportKind::Soundness, outcome: Result::Ok(v) });
                        }
                    },
                    Result::Err(e) => {
                        out.push(FunctionReport { func: f, kind: ReportKind::Soundness, outcome: Result::Err(e) });
                    },
                }
            }
            if self.program.functions[f].function_unsafe {
                match self.annotate_safety(f) {
                    Result::Ok(v) => {
                        if v.len() > 0 {
                            out.push(
                                FunctionReport { func: f, kind: ReportKind::SafetyAnnotation, outcome: Result::Ok(v) },
                            );
                        }
                    },
                    Result::Err(e) => {
                        out.push(
                            FunctionReport { func: f, kind: ReportKind::SafetyAnnotation, outcome: Result::Err(e) },
                        );
                    },
                }
            }
            f = f + 1;
            proof {
                assert(reports_view(out@) =~= spec_start(
                    self.program,
                    self.catalog@,
                    self.threshold as nat,
                    self.seed_invariants,
                    f as int,
                ));
            }
        }
        out
    }
}

} // verus!
