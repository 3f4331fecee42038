//! End-to-end scenarios for the soundness-check engine: the analyzer run
//! through the public orchestrator on hand-built control-flow graphs.

use senryx::body::BasicBlock;
use senryx::body::Body;
use senryx::body::Stmt;
use senryx::body::Terminator;
use senryx::checker::AnalyzeError;
use senryx::checker::ReportKind;
use senryx::checker::SenryxCheck;
use senryx::contracts::Contract;
use senryx::contracts::ContractKind;
use senryx::facts::Provenance;
use senryx::matcher::CheckResult;
use senryx::program::FunctionInfo;
use senryx::program::Program;
use senryx::program::Role;
use senryx::program::role_of;

fn contract(name: &str, op: u64, kind: ContractKind, arg: usize) -> Contract {
    Contract { name: name.to_string(), op, kind, arg }
}

fn call(op: u64, name: &str, args: Vec<usize>) -> Stmt {
    Stmt::SensitiveCall { op, name: name.to_string(), args }
}

fn block(stmts: Vec<Stmt>, term: Terminator) -> BasicBlock {
    BasicBlock { stmts, term }
}

fn body(blocks: Vec<BasicBlock>, n_locals: usize, n_params: usize, n_fields: usize) -> Body {
    Body { blocks, n_locals, n_params, n_fields }
}

fn plain_fn(b: Body) -> FunctionInfo {
    FunctionInfo { body: b, function_unsafe: false, block_unsafe: true, owning_type: None, is_constructor: false }
}

fn method_of(t: u64, b: Body) -> FunctionInfo {
    FunctionInfo { body: b, function_unsafe: false, block_unsafe: true, owning_type: Some(t), is_constructor: false }
}

fn ctor_of(t: u64, b: Body) -> FunctionInfo {
    FunctionInfo { body: b, function_unsafe: false, block_unsafe: false, owning_type: Some(t), is_constructor: true }
}

fn checker(funcs: Vec<FunctionInfo>, cat: Vec<Contract>, threshold: usize) -> SenryxCheck {
    SenryxCheck::new(Program { functions: funcs }, cat, threshold)
}

fn names(v: &[String]) -> Vec<&str> {
    v.iter().map(|s| s.as_str()).collect()
}

fn same_result(a: &CheckResult, b: &CheckResult) -> bool {
    a.op == b.op
        && a.op_name == b.op_name
        && a.block == b.block
        && a.stmt == b.stmt
        && a.passed == b.passed
        && a.failed == b.failed
        && a.unknown == b.unknown
        && a.complete == b.complete
}

#[test]
fn no_sensitive_ops_yields_empty() {
    let b = body(
        vec![block(vec![Stmt::AssignConst { dst: 0 }], Terminator::Return)],
        1,
        0,
        0,
    );
    let c = checker(vec![plain_fn(b)], vec![contract("bounds", 1, ContractKind::RequiresBounds, 0)], 16);
    let r = c.check_soundness(0).unwrap();
    assert!(r.is_empty());
}

#[test]
fn one_call_no_registered_contracts_yields_one_empty_entry() {
    let b = body(vec![block(vec![call(5, "free", vec![])], Terminator::Return)], 1, 0, 0);
    let c = checker(vec![plain_fn(b)], vec![contract("bounds", 1, ContractKind::RequiresBounds, 0)], 16);
    let r = c.check_soundness(0).unwrap();
    assert_eq!(r.len(), 1);
    assert_eq!(r[0].op, 5);
    assert_eq!(r[0].op_name, "free");
    assert!(r[0].passed.is_empty());
    assert!(r[0].failed.is_empty());
    assert!(r[0].unknown.is_empty());
}

#[test]
fn constant_argument_satisfies_contracts() {
    let b = body(
        vec![block(vec![Stmt::AssignConst { dst: 0 }, call(1, "write", vec![0])], Terminator::Return)],
        1,
        0,
        0,
    );
    let cat = vec![
        contract("bounds", 1, ContractKind::RequiresBounds, 0),
        contract("init", 1, ContractKind::RequiresInit, 0),
    ];
    let c = checker(vec![plain_fn(b)], cat, 16);
    let r = c.check_soundness(0).unwrap();
    assert_eq!(r.len(), 1);
    assert_eq!(names(&r[0].passed), vec!["bounds", "init"]);
    assert!(r[0].failed.is_empty());
    assert!(r[0].unknown.is_empty());
    assert!(r[0].complete);
}

#[test]
fn uninitialized_argument_violates_init_contract() {
    let b = body(
        vec![block(vec![Stmt::AssignConst { dst: 0 }, call(1, "use", vec![1])], Terminator::Return)],
        2,
        0,
        0,
    );
    let c = checker(vec![plain_fn(b)], vec![contract("init", 1, ContractKind::RequiresInit, 0)], 16);
    let r = c.check_soundness(0).unwrap();
    assert_eq!(r.len(), 1);
    assert!(r[0].passed.is_empty());
    assert_eq!(names(&r[0].failed), vec!["init"]);
    assert!(r[0].unknown.is_empty());
}

#[test]
fn unresolved_argument_is_unknown_not_violated() {
    let b = body(
        vec![block(vec![Stmt::AssignExternal { dst: 0 }, call(1, "use", vec![0])], Terminator::Return)],
        1,
        0,
        0,
    );
    let cat = vec![
        contract("prov", 1, ContractKind::RequiresProvenance(Provenance::Constant), 0),
        contract("bounds", 1, ContractKind::RequiresBounds, 0),
        contract("init", 1, ContractKind::RequiresInit, 0),
    ];
    let c = checker(vec![plain_fn(b)], cat, 16);
    let r = c.check_soundness(0).unwrap();
    assert_eq!(r.len(), 1);
    assert_eq!(names(&r[0].passed), vec!["init"]);
    assert!(r[0].failed.is_empty());
    assert_eq!(names(&r[0].unknown), vec!["prov", "bounds"]);
}

#[test]
fn guard_establishes_bound() {
    let b = body(
        vec![block(
            vec![Stmt::AssignExternal { dst: 0 }, Stmt::Guard { target: 0 }, call(1, "index", vec![0])],
            Terminator::Return,
        )],
        1,
        0,
        0,
    );
    let c = checker(vec![plain_fn(b)], vec![contract("bounds", 1, ContractKind::RequiresBounds, 0)], 16);
    let r = c.check_soundness(0).unwrap();
    assert_eq!(r.len(), 1);
    assert_eq!(names(&r[0].passed), vec!["bounds"]);
}

#[test]
fn branch_edges_explored_in_declaration_order() {
    let b = body(
        vec![
            block(
                vec![],
                Terminator::Branch { guard: Some(0), then_target: 1, else_target: 2 },
            ),
            block(vec![call(1, "index", vec![0])], Terminator::Return),
            block(vec![call(1, "index", vec![0])], Terminator::Return),
        ],
        1,
        1,
        0,
    );
    let c = checker(vec![plain_fn(b)], vec![contract("bounds", 1, ContractKind::RequiresBounds, 0)], 16);
    let r = c.check_soundness(0).unwrap();
    assert_eq!(r.len(), 2);
    assert_eq!(r[0].block, 1);
    assert_eq!(names(&r[0].passed), vec!["bounds"]);
    assert!(r[0].unknown.is_empty());
    assert_eq!(r[1].block, 2);
    assert_eq!(names(&r[1].unknown), vec!["bounds"]);
    assert!(r[1].passed.is_empty());
}

#[test]
fn join_point_is_unknown_not_satisfied() {
    // Two branches join before the sensitive call; the bound is established
    // on the then edge only. The call is evaluated once, against the join
    // of both incoming states, so the contract is Unknown, never Satisfied.
    let b = body(
        vec![
            block(
                vec![],
                Terminator::Branch { guard: Some(0), then_target: 1, else_target: 2 },
            ),
            block(vec![], Terminator::Goto { target: 3 }),
            block(vec![], Terminator::Goto { target: 3 }),
            block(vec![call(1, "index", vec![0])], Terminator::Return),
        ],
        1,
        1,
        0,
    );
    let c = checker(vec![plain_fn(b)], vec![contract("bounds", 1, ContractKind::RequiresBounds, 0)], 32);
    let r = c.check_soundness(0).unwrap();
    assert_eq!(r.len(), 1);
    assert_eq!(r[0].block, 3);
    assert!(r[0].passed.is_empty());
    assert!(r[0].failed.is_empty());
    assert_eq!(names(&r[0].unknown), vec!["bounds"]);
    assert!(r[0].complete);
}

#[test]
fn loop_join_is_unknown_not_satisfied() {
    // The loop head has two incoming edges: the entry edge, on which the
    // bound is established, and the back edge, on which it is not. The one
    // result for the call reflects the join: Unknown, not Satisfied.
    let b = body(
        vec![
            block(vec![Stmt::AssignConst { dst: 0 }], Terminator::Goto { target: 1 }),
            block(
                vec![call(1, "index", vec![0]), Stmt::AssignExternal { dst: 0 }],
                Terminator::Branch { guard: None, then_target: 1, else_target: 2 },
            ),
            block(vec![], Terminator::Return),
        ],
        1,
        0,
        0,
    );
    let c = checker(vec![plain_fn(b)], vec![contract("bounds", 1, ContractKind::RequiresBounds, 0)], 32);
    let r = c.check_soundness(0).unwrap();
    assert_eq!(r.len(), 1);
    assert!(r[0].passed.is_empty());
    assert!(r[0].failed.is_empty());
    assert_eq!(names(&r[0].unknown), vec!["bounds"]);
}

#[test]
fn unbounded_loop_terminates_and_reports_unknown() {
    let b = body(
        vec![block(
            vec![call(1, "index", vec![0]), Stmt::AssignExternal { dst: 0 }],
            Terminator::Goto { target: 0 },
        )],
        1,
        0,
        0,
    );
    let c = checker(vec![plain_fn(b)], vec![contract("bounds", 1, ContractKind::RequiresBounds, 0)], 64);
    let r = c.check_soundness(0).unwrap();
    // The solve reaches its fixed point well within the budget; the one
    // result for the call reflects the loop-carried state: Unknown.
    assert_eq!(r.len(), 1);
    assert!(r[0].failed.is_empty());
    assert_eq!(names(&r[0].unknown), vec!["bounds"]);
    assert!(r[0].complete);
}

#[test]
fn exhausted_budget_reports_all_contracts_unknown() {
    let b = body(
        vec![
            block(vec![Stmt::AssignConst { dst: 0 }], Terminator::Goto { target: 1 }),
            block(
                vec![call(1, "index", vec![0]), Stmt::AssignExternal { dst: 0 }],
                Terminator::Branch { guard: None, then_target: 1, else_target: 2 },
            ),
            block(vec![], Terminator::Return),
        ],
        1,
        0,
        0,
    );
    let c = checker(vec![plain_fn(b)], vec![contract("bounds", 1, ContractKind::RequiresBounds, 0)], 0);
    let r = c.check_soundness(0).unwrap();
    assert_eq!(r.len(), 1);
    assert!(r[0].passed.is_empty());
    assert!(r[0].failed.is_empty());
    assert_eq!(names(&r[0].unknown), vec!["bounds"]);
    // The distinct analysis-incomplete condition, apart from an ordinary
    // all-unknown evaluation.
    assert!(!r[0].complete);
}

fn seeding_program() -> (Vec<FunctionInfo>, Vec<Contract>) {
    let ctor_body = body(
        vec![block(
            vec![Stmt::AssignConst { dst: 0 }, Stmt::StoreField { field: 0, src: 0 }],
            Terminator::Return,
        )],
        1,
        0,
        1,
    );
    let method_body = body(
        vec![block(
            vec![Stmt::LoadField { dst: 0, field: 0 }, call(1, "deref", vec![0])],
            Terminator::Return,
        )],
        1,
        0,
        1,
    );
    let funcs = vec![ctor_of(7, ctor_body), method_of(7, method_body)];
    let cat = vec![contract("bounds", 1, ContractKind::RequiresBounds, 0)];
    (funcs, cat)
}

#[test]
fn constructor_seeding_disabled_reports_unknown() {
    let (funcs, cat) = seeding_program();
    let c = checker(funcs, cat, 16);
    let r = c.check_soundness(1).unwrap();
    assert_eq!(r.len(), 1);
    assert!(r[0].passed.is_empty());
    assert_eq!(names(&r[0].unknown), vec!["bounds"]);
}

#[test]
fn constructor_seeding_enabled_reports_satisfied() {
    let (funcs, cat) = seeding_program();
    let mut c = checker(funcs, cat, 16);
    c.set_seeding(true);
    let r = c.check_soundness(1).unwrap();
    assert_eq!(r.len(), 1);
    assert_eq!(names(&r[0].passed), vec!["bounds"]);
    assert!(r[0].unknown.is_empty());
}

#[test]
fn disagreeing_constructors_join_conservatively() {
    let (mut funcs, cat) = seeding_program();
    let other_ctor = body(
        vec![block(
            vec![Stmt::AssignExternal { dst: 0 }, Stmt::StoreField { field: 0, src: 0 }],
            Terminator::Return,
        )],
        1,
        0,
        1,
    );
    funcs.push(ctor_of(7, other_ctor));
    let mut c = checker(funcs, cat, 16);
    c.set_seeding(true);
    let r = c.check_soundness(1).unwrap();
    assert_eq!(r.len(), 1);
    assert!(r[0].passed.is_empty());
    assert_eq!(names(&r[0].unknown), vec!["bounds"]);
}

#[test]
fn analysis_is_deterministic_across_runs() {
    let (funcs, cat) = seeding_program();
    let c = checker(funcs, cat, 16);
    let r1 = c.check_soundness(1).unwrap();
    let r2 = c.check_soundness(1).unwrap();
    assert_eq!(r1.len(), r2.len());
    for (a, b) in r1.iter().zip(r2.iter()) {
        assert!(same_result(a, b));
    }
}

#[test]
fn soundness_and_annotation_share_one_analysis() {
    let (funcs, cat) = seeding_program();
    let c = checker(funcs, cat, 16);
    let r1 = c.check_soundness(1).unwrap();
    let r2 = c.annotate_safety(1).unwrap();
    assert_eq!(r1.len(), r2.len());
    for (a, b) in r1.iter().zip(r2.iter()) {
        assert!(same_result(a, b));
    }
}

#[test]
fn analysis_order_does_not_change_results() {
    let (funcs_a, cat_a) = seeding_program();
    let (funcs_b, cat_b) = seeding_program();
    let c = checker(funcs_a, cat_a, 16);
    let d = checker(funcs_b, cat_b, 16);
    let r0 = c.check_soundness(0).unwrap();
    let r1 = c.check_soundness(1).unwrap();
    let s1 = d.check_soundness(1).unwrap();
    let s0 = d.check_soundness(0).unwrap();
    assert_eq!(r0.len(), s0.len());
    for (a, b) in r0.iter().zip(s0.iter()) {
        assert!(same_result(a, b));
    }
    assert_eq!(r1.len(), s1.len());
    for (a, b) in r1.iter().zip(s1.iter()) {
        assert!(same_result(a, b));
    }
}

#[test]
fn evaluation_partitions_registered_contracts() {
    let b = body(
        vec![block(
            vec![
                Stmt::AssignConst { dst: 0 },
                Stmt::AssignExternal { dst: 2 },
                call(1, "op", vec![0, 1, 2]),
            ],
            Terminator::Return,
        )],
        3,
        0,
        0,
    );
    let cat = vec![
        contract("a", 1, ContractKind::RequiresBounds, 0),
        contract("b", 1, ContractKind::RequiresInit, 1),
        contract("c", 1, ContractKind::RequiresProvenance(Provenance::Constant), 2),
        contract("d", 2, ContractKind::RequiresInit, 0),
    ];
    let c = checker(vec![plain_fn(b)], cat, 16);
    let r = c.check_soundness(0).unwrap();
    assert_eq!(r.len(), 1);
    assert_eq!(names(&r[0].passed), vec!["a"]);
    assert_eq!(names(&r[0].failed), vec!["b"]);
    assert_eq!(names(&r[0].unknown), vec!["c"]);
    assert_eq!(r[0].passed.len() + r[0].failed.len() + r[0].unknown.len(), 3);
}

#[test]
fn missing_argument_binding_is_unknown() {
    let b = body(vec![block(vec![call(1, "op", vec![0])], Terminator::Return)], 1, 1, 0);
    let c = checker(vec![plain_fn(b)], vec![contract("init", 1, ContractKind::RequiresInit, 3)], 16);
    let r = c.check_soundness(0).unwrap();
    assert_eq!(r.len(), 1);
    assert_eq!(names(&r[0].unknown), vec!["init"]);
}

#[test]
fn missing_body_is_reported() {
    let (funcs, cat) = seeding_program();
    let c = checker(funcs, cat, 16);
    assert!(matches!(c.body_visit_and_check(9), Err(AnalyzeError::MissingBody)));
}

#[test]
fn malformed_body_is_reported_not_fatal() {
    let bad = body(vec![block(vec![Stmt::AssignConst { dst: 5 }], Terminator::Return)], 1, 0, 0);
    let good = body(
        vec![block(vec![Stmt::AssignConst { dst: 0 }, call(1, "write", vec![0])], Terminator::Return)],
        1,
        0,
        0,
    );
    let c = checker(
        vec![plain_fn(bad), plain_fn(good)],
        vec![contract("bounds", 1, ContractKind::RequiresBounds, 0)],
        16,
    );
    assert!(matches!(c.body_visit_and_check(0), Err(AnalyzeError::MalformedBody)));
    let r = c.check_soundness(1).unwrap();
    assert_eq!(names(&r[0].passed), vec!["bounds"]);
}

#[test]
fn body_without_entry_block_is_malformed() {
    let empty = body(vec![], 0, 0, 0);
    let c = checker(vec![plain_fn(empty)], vec![], 16);
    assert!(matches!(c.body_visit_and_check(0), Err(AnalyzeError::MalformedBody)));
}

#[test]
fn role_resolution_degrades_softly() {
    let b = body(vec![block(vec![], Terminator::Return)], 0, 0, 0);
    let plain = plain_fn(b);
    assert_eq!(role_of(&plain), Role::Plain);
    let m = method_of(3, body(vec![block(vec![], Terminator::Return)], 0, 0, 0));
    assert_eq!(role_of(&m), Role::ConstructorAssociated { owning_type: 3 });
    let ct = ctor_of(3, body(vec![block(vec![], Terminator::Return)], 0, 0, 0));
    assert_eq!(role_of(&ct), Role::Plain);
}

#[test]
fn start_walks_every_candidate_and_aggregates() {
    let with_call = || {
        body(
            vec![block(vec![Stmt::AssignConst { dst: 0 }, call(1, "write", vec![0])], Terminator::Return)],
            1,
            0,
            0,
        )
    };
    let quiet = body(vec![block(vec![Stmt::AssignConst { dst: 0 }], Terminator::Return)], 1, 0, 0);
    let bad = body(vec![block(vec![], Terminator::Goto { target: 9 })], 0, 0, 0);
    let funcs = vec![
        FunctionInfo {
            body: with_call(),
            function_unsafe: false,
            block_unsafe: true,
            owning_type: None,
            is_constructor: false,
        },
        FunctionInfo {
            body: quiet,
            function_unsafe: true,
            block_unsafe: false,
            owning_type: None,
            is_constructor: false,
        },
        FunctionInfo {
            body: bad,
            function_unsafe: false,
            block_unsafe: true,
            owning_type: None,
            is_constructor: false,
        },
        FunctionInfo {
            body: with_call(),
            function_unsafe: true,
            block_unsafe: true,
            owning_type: None,
            is_constructor: false,
        },
    ];
    let c = checker(funcs, vec![contract("bounds", 1, ContractKind::RequiresBounds, 0)], 16);
    let reports = c.start();
    assert_eq!(reports.len(), 4);
    assert_eq!(reports[0].func, 0);
    assert_eq!(reports[0].kind, ReportKind::Soundness);
    assert!(reports[0].outcome.is_ok());
    // Function 1 is marked but its body analysis finds nothing: no report.
    assert_eq!(reports[1].func, 2);
    assert!(matches!(reports[1].outcome, Err(AnalyzeError::MalformedBody)));
    assert_eq!(reports[2].func, 3);
    assert_eq!(reports[2].kind, ReportKind::Soundness);
    assert_eq!(reports[3].func, 3);
    assert_eq!(reports[3].kind, ReportKind::SafetyAnnotation);
}
