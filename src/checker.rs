//! Judging conditions from the ranges of their operands.
use vstd::prelude::*;
use crate::bindings::{
    filter_map, let_binding_of, local_entries, param_binding_of, param_entries,
    parse_function_arguments, parse_let_statements, LetBinding, LetInitialization, ParamBinding,
};
use crate::range::{ComparisonResult, ValueRange};
use crate::resolve::{resolve_dependency, resolve_in, source_of, test_if_dependency_same_source};
use crate::syntax::{BinaryOp, Expr, FunctionDef, Param, Stmt};

verus! {

/// A comparison of two variables, taken from a conditional statement.
#[derive(Debug, PartialEq, Eq)]
pub struct IfExpression {
    pub var1: String,
    pub cond: BinaryOp,
    pub var2: String,
}

/// A condition whose outcome is fixed: in function `function`,
/// `var1 op var2` is always `always`.
#[derive(Debug, PartialEq, Eq)]
pub struct Diagnostic {
    pub function: String,
    pub var1: String,
    pub op: BinaryOp,
    pub var2: String,
    pub always: bool,
}

/// The condition a statement holds: a conditional whose condition is a
/// binary operation between two plain names.
pub open spec fn condition_of(s: Stmt) -> Option<IfExpression> {
    match s {
        Stmt::If { cond: Expr::Binary(op, l, r) } => match (*l, *r) {
            (Expr::Name(a), Expr::Name(b)) => Some(IfExpression { var1: a, cond: op, var2: b }),
            _ => None,
        },
        _ => None,
    }
}

/// The fixed outcome of `x op y` when the range of `x` relates to that of `y`
/// as `c`, if there is one. Only the six comparisons are judged. A smaller
/// left operand is judged as the mirror image of a larger one, so that a
/// condition is reported whichever way round its operands are written.
pub open spec fn spec_verdict(c: ComparisonResult, op: BinaryOp) -> Option<bool> {
    match c {
        ComparisonResult::AlwaysLarger => match op {
            BinaryOp::Ge | BinaryOp::Gt | BinaryOp::Ne => Some(true),
            BinaryOp::Eq | BinaryOp::Lt | BinaryOp::Le => Some(false),
            _ => None,
        },
        ComparisonResult::AlwaysEqual => match op {
            BinaryOp::Eq | BinaryOp::Ge | BinaryOp::Le => Some(true),
            BinaryOp::Gt | BinaryOp::Ne | BinaryOp::Lt => Some(false),
            _ => None,
        },
        ComparisonResult::AlwaysSmaller => match op {
            BinaryOp::Le | BinaryOp::Lt | BinaryOp::Ne => Some(true),
            BinaryOp::Ge | BinaryOp::Gt | BinaryOp::Eq => Some(false),
            _ => None,
        },
        ComparisonResult::Overlapping => None,
    }
}

/// The diagnostic a condition gives in function `f`: none when an operand
/// does not resolve or the outcome is not fixed.
pub open spec fn diagnostic_of(
    f: String,
    locals: Seq<(Seq<char>, LetInitialization)>,
    params: Seq<(Seq<char>, ValueRange)>,
    c: IfExpression,
) -> Option<Diagnostic> {
    match (resolve_in(locals, params, c.var1@), resolve_in(locals, params, c.var2@)) {
        (Some(a), Some(b)) => match spec_verdict(a.spec_compare(b), c.cond) {
            Some(v) => Some(
                Diagnostic { function: f, var1: c.var1, op: c.cond, var2: c.var2, always: v },
            ),
            None => None,
        },
        _ => None,
    }
}

/// What the analysis reports for a function: the diagnostics of its
/// top-level conditions, in order, against the tables of its parameters and
/// top-level declarations.
pub open spec fn function_diagnostics(func: FunctionDef) -> Seq<Diagnostic> {
    filter_map(
        filter_map(func.body@, |s: Stmt| condition_of(s)),
        |c: IfExpression|
            diagnostic_of(
                func.name,
                filter_map(func.body@, |s: Stmt| let_binding_of(s)),
                filter_map(func.params@, |p: Param| param_binding_of(p)),
                c,
            ),
    )
}

/// The fixed outcome of `x op y` when the range of `x` relates to that of `y`
/// as `c`, if there is one.
pub fn verdict(c: ComparisonResult, op: BinaryOp) -> (r: Option<bool>)
    ensures
        r == spec_verdict(c, op),
{
    match c {
        ComparisonResult::AlwaysLarger => match op {
            BinaryOp::Ge | BinaryOp::Gt | BinaryOp::Ne => Some(true),
            BinaryOp::Eq | BinaryOp::Lt | BinaryOp::Le => Some(false),
            _ => None,
        },
        ComparisonResult::AlwaysEqual => match op {
            BinaryOp::Eq | BinaryOp::Ge | BinaryOp::Le => Some(true),
            BinaryOp::Gt | BinaryOp::Ne | BinaryOp::Lt => Some(false),
            _ => None,
        },
        ComparisonResult::AlwaysSmaller => match op {
            BinaryOp::Le | BinaryOp::Lt | BinaryOp::Ne => Some(true),
            BinaryOp::Ge | BinaryOp::Gt | BinaryOp::Eq => Some(false),
            _ => None,
        },
        ComparisonResult::Overlapping => None,
    }
}

/// The top-level conditions of a body that compare two plain names, in order.
pub fn parse_if_conditions(body: &Vec<Stmt>) -> (r: Vec<IfExpression>)
    ensures
        r@ == filter_map(body@, |s: Stmt| condition_of(s)),
{
    let mut out: Vec<IfExpression> = Vec::new();
    let mut i: usize = 0;
    while i < body.len()
        invariant
            i <= body.len(),
            out@ == filter_map(body@.take(i as int), |s: Stmt| condition_of(s)),
        decreases body.len() - i,
    {
        proof {
            assert(body@.take(i + 1).drop_last() =~= body@.take(i as int));
        }
        match &body[i] {
            Stmt::If { cond: Expr::Binary(op, l, r) } => match (&**l, &**r) {
                (Expr::Name(a), Expr::Name(b)) => {
                    out.push(IfExpression { var1: a.clone(), cond: *op, var2: b.clone() });
                },
                _ => {},
            },
            _ => {},
        }
        proof {
            assert(out@ =~= filter_map(body@.take(i + 1), |s: Stmt| condition_of(s)));
        }
        i = i + 1;
    }
    assert(body@.take(body.len() as int) =~= body@);
    out
}

/// The diagnostics of the conditions `if_exprs` in function `f`, in order.
/// A condition whose operands do not both resolve, or whose outcome is not
/// fixed, is passed over.
pub fn check_for_illogical_ranges(
    f: &String,
    func_args: &Vec<ParamBinding>,
    let_stmts: &Vec<LetBinding>,
    if_exprs: &Vec<IfExpression>,
) -> (r: Vec<Diagnostic>)
    ensures
        r@ == filter_map(
            if_exprs@,
            |c: IfExpression|
                diagnostic_of(*f, local_entries(let_stmts@), param_entries(func_args@), c),
        ),
{
    let ghost locals = local_entries(let_stmts@);
    let ghost params = param_entries(func_args@);
    let mut out: Vec<Diagnostic> = Vec::new();
    let mut i: usize = 0;
    while i < if_exprs.len()
        invariant
            i <= if_exprs.len(),
            locals == local_entries(let_stmts@),
            params == param_entries(func_args@),
            out@ == filter_map(
                if_exprs@.take(i as int),
                |c: IfExpression| diagnostic_of(*f, locals, params, c),
            ),
        decreases if_exprs.len() - i,
    {
        proof {
            assert(if_exprs@.take(i + 1).drop_last() =~= if_exprs@.take(i as int));
        }
        let c = &if_exprs[i];
        let left = resolve_dependency(
            &LetInitialization::Dependency(c.var1.clone()),
            let_stmts,
            func_args,
        );
        let right = resolve_dependency(
            &LetInitialization::Dependency(c.var2.clone()),
            let_stmts,
            func_args,
        );
        match (left, right) {
            (Some(a), Some(b)) => match verdict(a.compare(&b), c.cond) {
                Some(v) => {
                    out.push(
                        Diagnostic {
                            function: f.clone(),
                            var1: c.var1.clone(),
                            op: c.cond,
                            var2: c.var2.clone(),
                            always: v,
                        },
                    );
                },
                None => {},
            },
            _ => {},
        }
        proof {
            assert(out@ =~= filter_map(
                if_exprs@.take(i + 1),
                |c: IfExpression| diagnostic_of(*f, locals, params, c),
            ));
        }
        i = i + 1;
    }
    assert(if_exprs@.take(if_exprs.len() as int) =~= if_exprs@);
    out
}

/// Analyses one function: builds its parameter and local tables, extracts
/// its conditions and reports those whose outcome is fixed.
pub fn check_function(func: &FunctionDef) -> (r: Vec<Diagnostic>)
    ensures
        r@ == function_diagnostics(*func),
{
    let variable_sources = parse_function_arguments(&func.params);
    let internal_let_statements = parse_let_statements(&func.body);
    let if_conditions = parse_if_conditions(&func.body);
    let r = check_for_illogical_ranges(
        &func.name,
        &variable_sources,
        &internal_let_statements,
        &if_conditions,
    );
    proof {
        let f1 = |c: IfExpression|
            diagnostic_of(
                func.name,
                local_entries(internal_let_statements@),
                param_entries(variable_sources@),
                c,
            );
        let f2 = |c: IfExpression|
            diagnostic_of(
                func.name,
                filter_map(func.body@, |s: Stmt| let_binding_of(s)),
                filter_map(func.params@, |p: Param| param_binding_of(p)),
                c,
            );
        assert(f1 == f2);
    }
    r
}

/// A condition whose operands do not both resolve gives no diagnostic.
pub proof fn lemma_unresolved_condition_skipped(
    f: String,
    locals: Seq<(Seq<char>, LetInitialization)>,
    params: Seq<(Seq<char>, ValueRange)>,
    c: IfExpression,
)
    requires
        resolve_in(locals, params, c.var1@) is None || resolve_in(locals, params, c.var2@) is None,
    ensures
        diagnostic_of(f, locals, params, c) is None,
{
}

/// The diagnostic a condition gives when both operands lead to the same
/// variable: they are then always equal.
pub open spec fn dependency_diagnostic_of(f: String, locals: Seq<LetBinding>, c: IfExpression) -> Option<
    Diagnostic,
> {
    if source_of(locals, c.var1@) is Some && source_of(locals, c.var1@) == source_of(locals, c.var2@) {
        match spec_verdict(ComparisonResult::AlwaysEqual, c.cond) {
            Some(v) => Some(
                Diagnostic { function: f, var1: c.var1, op: c.cond, var2: c.var2, always: v },
            ),
            None => None,
        }
    } else {
        None
    }
}

/// The diagnostics of the conditions `if_exprs` in function `f` whose two
/// operands are bound to the same variable, whatever its range: such a
/// comparison is judged as one between equal values.
pub fn check_for_illogical_dependencies(
    f: &String,
    let_stmts: &Vec<LetBinding>,
    if_exprs: &Vec<IfExpression>,
) -> (r: Vec<Diagnostic>)
    ensures
        r@ == filter_map(if_exprs@, |c: IfExpression| dependency_diagnostic_of(*f, let_stmts@, c)),
{
    let mut out: Vec<Diagnostic> = Vec::new();
    let mut i: usize = 0;
    while i < if_exprs.len()
        invariant
            i <= if_exprs.len(),
            out@ == filter_map(
                if_exprs@.take(i as int),
                |c: IfExpression| dependency_diagnostic_of(*f, let_stmts@, c),
            ),
        decreases if_exprs.len() - i,
    {
        proof {
            assert(if_exprs@.take(i + 1).drop_last() =~= if_exprs@.take(i as int));
        }
        let c = &if_exprs[i];
        if test_if_dependency_same_source(&c.var1, &c.var2, let_stmts) {
            match verdict(ComparisonResult::AlwaysEqual, c.cond) {
                Some(v) => {
                    out.push(
                        Diagnostic {
                            function: f.clone(),
                            var1: c.var1.clone(),
                            op: c.cond,
                            var2: c.var2.clone(),
                            always: v,
                        },
                    );
                },
                None => {},
            }
        }
        proof {
            assert(out@ =~= filter_map(
                if_exprs@.take(i + 1),
                |c: IfExpression| dependency_diagnostic_of(*f, let_stmts@, c),
            ));
        }
        i = i + 1;
    }
    assert(if_exprs@.take(if_exprs.len() as int) =~= if_exprs@);
    out
}

} // verus!
