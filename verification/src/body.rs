//! The control-flow-graph model of one function body: basic blocks of
//! abstract statements ended by a terminator, together with the
//! well-formedness predicate the analyzer requires and its executable check.

use vstd::prelude::*;

verus! {

/// One abstract statement, the unit the forward walk interprets.
pub enum Stmt {
    /// `dst` is assigned a constant: initialized, bounds known, constant origin.
    AssignConst { dst: usize },
    /// `dst` is assigned a copy of `src`: it takes over `src`'s facts.
    AssignCopy { dst: usize, src: usize },
    /// `dst` is assigned the result of an opaque external call: a value is
    /// present, its bounds and origin are unresolved.
    AssignExternal { dst: usize },
    /// A bounds check on `target` succeeds on the fall-through path.
    Guard { target: usize },
    /// Field `field` of the owning type is assigned a copy of local `src`.
    StoreField { field: usize, src: usize },
    /// Local `dst` is assigned a copy of field `field` of the owning type.
    LoadField { dst: usize, field: usize },
    /// A call to a sensitive operation: `op` is the operation identity the
    /// contract catalog binds to, `name` its display name, and `args` the
    /// locals bound to its arguments.
    SensitiveCall { op: u64, name: String, args: Vec<usize> },
}

/// How a basic block ends.
pub enum Terminator {
    /// Unconditional edge to `target`.
    Goto { target: usize },
    /// Two-way branch. On the `then_target` edge the condition additionally
    /// establishes a bound on `guard`'s local, if one is named.
    Branch { guard: Option<usize>, then_target: usize, else_target: usize },
    /// The function returns.
    Return,
}

/// One basic block: straight-line statements, then a terminator.
pub struct BasicBlock {
    pub stmts: Vec<Stmt>,
    pub term: Terminator,
}

/// One function body. Locals `0 .. n_params` are the formal parameters;
/// block `0` is the entry block.
pub struct Body {
    pub blocks: Vec<BasicBlock>,
    pub n_locals: usize,
    pub n_params: usize,
    pub n_fields: usize,
}

/// Every local and field index a statement names is in range.
pub open spec fn stmt_wf(s: Stmt, n_locals: int, n_fields: int) -> bool {
    match s {
        Stmt::AssignConst { dst } => dst < n_locals,
        Stmt::AssignCopy { dst, src } => dst < n_locals && src < n_locals,
        Stmt::AssignExternal { dst } => dst < n_locals,
        Stmt::Guard { target } => target < n_locals,
        Stmt::StoreField { field, src } => field < n_fields && src < n_locals,
        Stmt::LoadField { dst, field } => dst < n_locals && field < n_fields,
        Stmt::SensitiveCall { op, name, args } => forall|i: int| 0 <= i < args@.len() ==> args@[i] < n_locals,
    }
}

/// Every block and local index a terminator names is in range.
pub open spec fn term_wf(t: Terminator, n_blocks: int, n_locals: int) -> bool {
    match t {
        Terminator::Goto { target } => target < n_blocks,
        Terminator::Branch { guard, then_target, else_target } => then_target < n_blocks && else_target < n_blocks
            && (match guard {
            None => true,
            Some(l) => l < n_locals,
        }),
        Terminator::Return => true,
    }
}

/// All of a block's statements and its terminator are in range.
pub open spec fn block_wf(b: BasicBlock, n_blocks: int, n_locals: int, n_fields: int) -> bool {
    &&& forall|i: int| 0 <= i < b.stmts@.len() ==> stmt_wf(#[trigger] b.stmts@[i], n_locals, n_fields)
    &&& term_wf(b.term, n_blocks, n_locals)
}

/// A body the analyzer can walk: at least an entry block, parameters within
/// the locals, and every index any block names in range.
pub open spec fn body_wf(b: Body) -> bool {
    &&& b.blocks@.len() >= 1
    &&& b.n_params <= b.n_locals
    &&& forall|k: int|
        0 <= k < b.blocks@.len() ==> block_wf(
            #[trigger] b.blocks@[k],
            b.blocks@.len() as int,
            b.n_locals as int,
            b.n_fields as int,
        )
}

/// Whether a statement is a call to a sensitive operation.
pub open spec fn stmt_is_sensitive(s: Stmt) -> bool {
    match s {
        Stmt::SensitiveCall { op, name, args } => true,
        _ => false,
    }
}

/// The body contains no sensitive operation at all.
pub open spec fn no_sensitive_calls(b: Body) -> bool {
    forall|k: int, i: int|
        0 <= k < b.blocks@.len() && 0 <= i < b.blocks@[k].stmts@.len() ==> !stmt_is_sensitive(
            #[trigger] b.blocks@[k].stmts@[i],
        )
}

/// Executable well-formedness check for one statement.
fn is_stmt_wf(s: &Stmt, n_locals: usize, n_fields: usize) -> (r: bool)
    ensures
        r == stmt_wf(*s, n_locals as int, n_fields as int),
{
    match s {
        Stmt::AssignConst { dst } => *dst < n_locals,
        Stmt::AssignCopy { dst, src } => *dst < n_locals && *src < n_locals,
        Stmt::AssignExternal { dst } => *dst < n_locals,
        Stmt::Guard { target } => *target < n_locals,
        Stmt::StoreField { field, src } => *field < n_fields && *src < n_locals,
        Stmt::LoadField { dst, field } => *dst < n_locals && *field < n_fields,
        Stmt::SensitiveCall { op, name, args } => {
            let mut i: usize = 0;
            let mut ok: bool = true;
            while i < args.len()
                invariant
                    i <= args@.len(),
                    ok == forall|j: int| 0 <= j < i ==> args@[j] < n_locals,
                decreases args@.len() - i,
            {
                if args[i] >= n_locals {
                    ok = false;
                }
                i = i + 1;
            }
            ok
        },
    }
}

/// Executable well-formedness check for one terminator.
fn is_term_wf(t: &Terminator, n_blocks: usize, n_locals: usize) -> (r: bool)
    ensures
        r == term_wf(*t, n_blocks as int, n_locals as int),
{
    match t {
        Terminator::Goto { target } => *target < n_blocks,
        Terminator::Branch { guard, then_target, else_target } => *then_target < n_blocks && *else_target < n_blocks
            && (match guard {
            None => true,
            Some(l) => *l < n_locals,
        }),
        Terminator::Return => true,
    }
}

/// Executable well-formedness check for a whole body. A body that fails it
/// is reported unanalyzable; the analyzer is never run on it.
pub fn is_body_wf(b: &Body) -> (r: bool)
    ensures
        r == body_wf(*b),
{
    if b.blocks.len() < 1 || b.n_params > b.n_locals {
        return false;
    }
    let n_blocks = b.blocks.len();
    let mut k: usize = 0;
    while k < n_blocks
        invariant
            k <= b.blocks@.len(),
            n_blocks == b.blocks@.len(),
            forall|j: int|
                0 <= j < k ==> block_wf(
                    #[trigger] b.blocks@[j],
                    b.blocks@.len() as int,
                    b.n_locals as int,
                    b.n_fields as int,
                ),
        decreases b.blocks@.len() - k,
    {
        let blk = &b.blocks[k];
        let mut i: usize = 0;
        while i < blk.stmts.len()
            invariant
                i <= blk.stmts@.len(),
                k < b.blocks@.len(),
                *blk == b.blocks@[k as int],
                forall|j: int| 0 <= j < i ==> stmt_wf(#[trigger] blk.stmts@[j], b.n_locals as int, b.n_fields as int),
            decreases blk.stmts@.len() - i,
        {
            if !is_stmt_wf(&blk.stmts[i], b.n_locals, b.n_fields) {
                proof {
                    assert(!block_wf(b.blocks@[k as int], b.blocks@.len() as int, b.n_locals as int, b.n_fields as int));
                }
                return false;
            }
            i = i + 1;
        }
        if !is_term_wf(&blk.term, n_blocks, b.n_locals) {
            return false;
        }
        k = k + 1;
    }
    true
}

} // verus!
