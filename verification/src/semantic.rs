//! Checks on a program that was read: that its calls fit the functions
//! they name, and that its names resolve.

use vstd::prelude::*;

use crate::codegen::aarch64::{arg_resolved, args_resolved, fn_resolved, fns_resolved};
use crate::codegen::aarch64::{program_resolved, stmt_resolved, stmts_resolved, unops_resolved};
use crate::ir::{exprs_view, lemma_exprs_view};
use crate::ir::{Expr, ExprView, Fn, FnView, InnerType, Lit, LitView, Program, ProgramView};
use crate::ir::{Stmt, StmtView, Type, Unop};
use crate::parser::slt::{find_func, find_variable, lemma_slts_view};
use crate::parser::slt::{ChildIterator, NavigableSlt, SltView};

verus! {

/// The type of an operand seen from the scopes `chain`: that of the
/// literal, that of the variable which an identifier resolves to, and that
/// of the function which a call names.
pub open spec fn arg_ty(e: ExprView, chain: Seq<SltView>) -> Option<Type> {
    match e {
        ExprView::Lit(LitView::Int(_)) => Some(Type::Val(InnerType::Int)),
        ExprView::Lit(LitView::Str(_)) => Some(Type::Val(InnerType::Str)),
        ExprView::Lit(LitView::Bool(_)) => Some(Type::Val(InnerType::Bool)),
        ExprView::ID(id) => match find_variable(chain, id) {
            Some(var) => Some(var.ty),
            None => None,
        },
        ExprView::FnCall { id, args } => match find_func(chain, id) {
            Some(f) => Some(f.ty),
            None => None,
        },
    }
}

/// `n` and one more, as far as a count can hold it.
pub open spec fn one_more(n: usize) -> usize {
    if n < usize::MAX {
        (n + 1) as usize
    } else {
        n
    }
}

/// The count `errors` after the check of the arguments from the `i`th up
/// to the `min`th against the types `expected`: one error for each
/// argument whose type is unknown or is not the type expected at its
/// place.
pub open spec fn args_errors(
    errors: usize,
    args: Seq<ExprView>,
    expected: Seq<Type>,
    chain: Seq<SltView>,
    i: nat,
    min: nat,
) -> usize
    decreases min - i,
{
    if i >= min || i >= args.len() {
        errors
    } else {
        args_errors(
            if i < expected.len() && arg_ty(args[i as int], chain) == Some(expected[i as int]) {
                errors
            } else {
                one_more(errors)
            },
            args,
            expected,
            chain,
            i + 1,
            min,
        )
    }
}

/// The count `errors` after the check of one statement. Only calls are
/// checked: one error where the function is unknown or gets less
/// arguments than it has fixed parameters; else one for each of these
/// arguments that is not of the type of its parameter.
pub open spec fn stmt_errors(errors: usize, stmt: StmtView, chain: Seq<SltView>) -> usize {
    match stmt {
        StmtView::FnCall { id, args } => match find_func(chain, id) {
            None => one_more(errors),
            Some(called) => {
                let min = match called.variadic {
                    Some(fixed) => fixed as nat,
                    None => called.args.len(),
                };
                if min > args.len() {
                    one_more(errors)
                } else {
                    args_errors(errors, args, called.args, chain, 0, min)
                }
            },
        },
        _ => errors,
    }
}

/// The count `errors` after the check of the statements from the `i`th on.
pub open spec fn stmts_errors(errors: usize, stmts: Seq<StmtView>, chain: Seq<SltView>, i: nat) -> usize
    decreases stmts.len() - i,
{
    if i >= stmts.len() {
        errors
    } else {
        stmts_errors(stmt_errors(errors, stmts[i as int], chain), stmts, chain, i + 1)
    }
}

/// The count `errors` after the check of the functions from the `i`th on,
/// each in the scope at place `first + i` of those nested in the innermost
/// of `chain`.
pub open spec fn fns_errors(
    errors: usize,
    funcs: Seq<FnView>,
    chain: Seq<SltView>,
    first: nat,
    i: nat,
) -> usize
    decreases funcs.len() - i,
{
    if i >= funcs.len() || first + i >= chain[0].children.len() {
        errors
    } else {
        fns_errors(
            stmts_errors(
                errors,
                funcs[i as int].stmts,
                seq![chain[0].children[(first + i) as int]] + chain,
                0,
            ),
            funcs,
            chain,
            first,
            i + 1,
        )
    }
}

fn bump(errors: usize) -> (r: usize)
    ensures
        r == one_more(errors),
{
    if errors < usize::MAX {
        errors + 1
    } else {
        errors
    }
}

/// The type of an operand.
pub fn get_arg_ty(expr: &Expr, slt: &NavigableSlt) -> (r: Option<Type>)
    ensures
        r == arg_ty(expr@, slt@),
{
    match expr {
        Expr::Lit(Lit::Int(_)) => Some(Type::Val(InnerType::Int)),
        Expr::Lit(Lit::Str(_)) => Some(Type::Val(InnerType::Str)),
        Expr::Lit(Lit::Bool(_)) => Some(Type::Val(InnerType::Bool)),
        Expr::ID(id) => match slt.find_variable(id.as_slice()) {
            Some(var) => Some(var.ty),
            None => None,
        },
        Expr::FnCall { id, args } => match slt.find_func(id.as_slice()) {
            Some(f) => Some(f.ty),
            None => None,
        },
    }
}

/// Counts the errors of the calls of a function whose scope is `slt`.
pub fn validate_fn(func: &Fn, slt: &NavigableSlt) -> (err_cpt: usize)
    ensures
        err_cpt == stmts_errors(0, func@.stmts, slt@, 0),
{
    let mut err_cpt: usize = 0;
    let ghost stmts = func@.stmts;

    let mut k: usize = 0;
    while k < func.stmts.len()
        invariant
            k <= func.stmts@.len(),
            stmts == func@.stmts,
            stmts_errors(err_cpt, stmts, slt@, k as nat) == stmts_errors(0, stmts, slt@, 0),
        decreases func.stmts@.len() - k,
    {
        match &func.stmts[k] {
            Stmt::FnCall { id, args } => {
                proof {
                    lemma_exprs_view(args@);
                }
                match slt.find_func(id.as_slice()) {
                    None => {
                        err_cpt = bump(err_cpt);
                    },
                    Some(called_func) => {
                        let min_args_number = match called_func.variadic {
                            Some(variadic) => variadic,
                            None => called_func.args.len(),
                        };

                        if min_args_number > args.len() {
                            err_cpt = bump(err_cpt);
                        } else {
                            let ghost before = err_cpt;
                            let ghost views = exprs_view(args@);
                            let mut i: usize = 0;
                            while i < min_args_number
                                invariant
                                    i <= min_args_number <= args@.len(),
                                    views == exprs_view(args@),
                                    views.len() == args@.len(),
                                    forall|j: int|
                                        0 <= j < args@.len() ==> #[trigger] views[j] == args@[j]@,
                                    args_errors(
                                        err_cpt,
                                        views,
                                        called_func@.args,
                                        slt@,
                                        i as nat,
                                        min_args_number as nat,
                                    ) == args_errors(
                                        before,
                                        views,
                                        called_func@.args,
                                        slt@,
                                        0,
                                        min_args_number as nat,
                                    ),
                                decreases min_args_number - i,
                            {
                                let fits = match get_arg_ty(&args[i], slt) {
                                    Some(ty) => i < called_func.args.len() && ty
                                        == called_func.args[i],
                                    None => false,
                                };
                                if !fits {
                                    err_cpt = bump(err_cpt);
                                }
                                i += 1;
                            }
                        }
                    },
                }
            },
            _ => {},
        }
        k += 1;
    }

    err_cpt
}

/// The number of errors in the calls of the program: each function is
/// checked in the next of the scopes nested in `slt`.
pub fn validate(program: &Program, slt: &NavigableSlt) -> (errors: usize)
    ensures
        errors == fns_errors(0, program@.func, slt@, 0, 0),
{
    let mut childs = slt.childs();
    let ghost funcs = program@.func;
    assert(slt@[0] == slt.slt@);
    proof {
        lemma_slts_view(slt.slt.children@);
    }

    let mut errors: usize = 0;
    let mut i: usize = 0;
    loop
        invariant_except_break
            fns_errors(errors, funcs, slt@, 0, i as nat) == fns_errors(0, funcs, slt@, 0, 0),
        invariant
            i <= program.func@.len(),
            funcs == program@.func,
            childs.parent == slt,
            childs.pos == i,
            slt@[0] == slt.slt@,
            slt@[0].children.len() == slt.slt.children@.len(),
        ensures
            errors == fns_errors(0, funcs, slt@, 0, 0),
        decreases program.func@.len() - i,
    {
        if i >= program.func.len() {
            break ;
        }
        match childs.next() {
            Some(scope) => {
                let found = validate_fn(&program.func[i], &scope);
                let ghost before = errors;
                errors = match errors.checked_add(found) {
                    Some(sum) => sum,
                    None => usize::MAX,
                };
                proof {
                    lemma_stmts_errors_add(before, program.func[i as int]@.stmts, scope@, 0);
                }
            },
            None => {
                break ;
            },
        }
        i += 1;
    }
    errors
}

/// `a` and `b` together, as far as a count can hold it.
pub open spec fn together(a: usize, b: usize) -> usize {
    if a + b <= usize::MAX {
        (a + b) as usize
    } else {
        usize::MAX
    }
}

/// Errors add up: a check that starts from a count ends at this count and
/// the errors that it finds, as far as a count can hold it.
pub proof fn lemma_args_errors_add(
    errors: usize,
    args: Seq<ExprView>,
    expected: Seq<Type>,
    chain: Seq<SltView>,
    i: nat,
    min: nat,
)
    ensures
        args_errors(errors, args, expected, chain, i, min) == together(
            errors,
            args_errors(0, args, expected, chain, i, min),
        ),
    decreases min - i,
{
    if i >= min || i >= args.len() {
    } else {
        let fits = i < expected.len() && arg_ty(args[i as int], chain) == Some(expected[i as int]);
        let next = if fits {
            errors
        } else {
            one_more(errors)
        };
        let next0 = if fits {
            0usize
        } else {
            one_more(0)
        };
        lemma_args_errors_add(next, args, expected, chain, i + 1, min);
        lemma_args_errors_add(next0, args, expected, chain, i + 1, min);
    }
}

pub proof fn lemma_stmt_errors_add(errors: usize, stmt: StmtView, chain: Seq<SltView>)
    ensures
        stmt_errors(errors, stmt, chain) == together(errors, stmt_errors(0, stmt, chain)),
{
    match stmt {
        StmtView::FnCall { id, args } => match find_func(chain, id) {
            None => {},
            Some(called) => {
                let min = match called.variadic {
                    Some(fixed) => fixed as nat,
                    None => called.args.len(),
                };
                if min <= args.len() {
                    lemma_args_errors_add(errors, args, called.args, chain, 0, min);
                }
            },
        },
        _ => {},
    }
}

pub proof fn lemma_stmts_errors_add(errors: usize, stmts: Seq<StmtView>, chain: Seq<SltView>, i: nat)
    ensures
        stmts_errors(errors, stmts, chain, i) == together(
            errors,
            stmts_errors(0, stmts, chain, i),
        ),
    decreases stmts.len() - i,
{
    if i < stmts.len() {
        lemma_stmt_errors_add(errors, stmts[i as int], chain);
        lemma_stmt_errors_add(0, stmts[i as int], chain);
        lemma_stmts_errors_add(stmt_errors(errors, stmts[i as int], chain), stmts, chain, i + 1);
        lemma_stmts_errors_add(stmt_errors(0, stmts[i as int], chain), stmts, chain, i + 1);
    }
}

// ---------------------------------------------------------------------------
// Whether the names of a program resolve.
// ---------------------------------------------------------------------------
/// Whether every identifier that the expression reads resolves.
pub fn is_arg_resolved(expr: &Expr, slt: &NavigableSlt) -> (r: bool)
    ensures
        r == arg_resolved(expr@, slt@),
    decreases expr, 0nat,
{
    match expr {
        Expr::Lit(_) => true,
        Expr::ID(id) => slt.find_variable(id.as_slice()).is_some(),
        Expr::FnCall { id, args } => are_args_resolved(args, slt),
    }
}

/// Whether every identifier that the expressions read resolves.
pub fn are_args_resolved(args: &Vec<Expr>, slt: &NavigableSlt) -> (r: bool)
    ensures
        r == args_resolved(exprs_view(args@), slt@, 0),
    decreases args, 1nat,
{
    let ghost views = exprs_view(args@);
    proof {
        lemma_exprs_view(args@);
    }
    let mut i: usize = args.len();
    assert(args_resolved(views, slt@, i as nat));
    while i > 0
        invariant
            i <= args@.len(),
            views == exprs_view(args@),
            views.len() == args@.len(),
            forall|j: int| 0 <= j < args@.len() ==> #[trigger] views[j] == args@[j]@,
            args_resolved(views, slt@, i as nat),
        decreases i,
    {
        i -= 1;
        if !is_arg_resolved(&args[i], slt) {
            proof {
                lemma_args_unresolved(views, slt@, i as nat);
            }
            return false;
        }
    }
    true
}

/// A list with an expression that does not resolve does not resolve from
/// any place in front of it.
pub proof fn lemma_args_unresolved(args: Seq<ExprView>, chain: Seq<SltView>, at: nat)
    requires
        at < args.len(),
        !arg_resolved(args[at as int], chain),
    ensures
        forall|from: nat| from <= at ==> !args_resolved(args, chain, from),
{
    assert forall|from: nat| from <= at implies !args_resolved(args, chain, from) by {
        lemma_args_unresolved_from(args, chain, at, from);
    }
}

pub proof fn lemma_args_unresolved_from(args: Seq<ExprView>, chain: Seq<SltView>, at: nat, from: nat)
    requires
        from <= at < args.len(),
        !arg_resolved(args[at as int], chain),
    ensures
        !args_resolved(args, chain, from),
    decreases at - from,
{
    if from < at {
        lemma_args_unresolved_from(args, chain, at, from + 1);
    }
}

/// Whether the names of a statement resolve.
pub fn is_stmt_resolved(stmt: &Stmt, slt: &NavigableSlt) -> (r: bool)
    ensures
        r == stmt_resolved(stmt@, slt@),
{
    assert(slt@[0] == slt.slt@);
    match stmt {
        Stmt::Let { id, value } => slt.slt.get_variable(id.as_slice()).is_some()
            && is_arg_resolved(value, slt),
        Stmt::FnCall { id, args } => are_args_resolved(args, slt),
        Stmt::Assign { id, ops } => {
            if slt.find_variable(id.as_slice()).is_none() {
                return false;
            }
            let ghost views = ops@.map_values(|u: Unop| u@);
            let mut i: usize = 0;
            while i < ops.len()
                invariant
                    i <= ops@.len(),
                    views == ops@.map_values(|u: Unop| u@),
                    stmt_resolved(stmt@, slt@) == unops_resolved(views, slt@, 0),
                    unops_resolved(views, slt@, 0) == unops_resolved(views, slt@, i as nat),
                decreases ops@.len() - i,
            {
                if !is_arg_resolved(&ops[i].value, slt) {
                    return false;
                }
                i += 1;
            }
            true
        },
    }
}

/// Whether the names of a function resolve from its scope `slt`.
pub fn is_fn_resolved(func: &Fn, slt: &NavigableSlt) -> (r: bool)
    ensures
        r == fn_resolved(func@, slt@),
{
    let ghost stmts = func@.stmts;
    let mut i: usize = 0;
    while i < func.stmts.len()
        invariant
            i <= func.stmts@.len(),
            stmts == func@.stmts,
            stmts_resolved(stmts, slt@, 0) == stmts_resolved(stmts, slt@, i as nat),
        decreases func.stmts@.len() - i,
    {
        if !is_stmt_resolved(&func.stmts[i], slt) {
            return false;
        }
        i += 1;
    }
    true
}

/// Whether the names of a program resolve: each function is checked in
/// the next of the scopes nested in `slt`.
pub fn resolved(program: &Program, slt: &NavigableSlt) -> (r: bool)
    ensures
        r == program_resolved(program@, slt@, 0),
{
    let mut childs = slt.childs();
    let ghost funcs = program@.func;
    assert(slt@[0] == slt.slt@);
    proof {
        lemma_slts_view(slt.slt.children@);
    }
    let mut i: usize = 0;
    loop
        invariant_except_break
            fns_resolved(funcs, slt@, 0, 0) == fns_resolved(funcs, slt@, 0, i as nat),
        invariant
            i <= program.func@.len(),
            funcs == program@.func,
            childs.parent == slt,
            childs.pos == i,
            slt@[0] == slt.slt@,
            slt@[0].children.len() == slt.slt.children@.len(),
        ensures
            fns_resolved(funcs, slt@, 0, 0),
        decreases program.func@.len() - i,
    {
        if i >= program.func.len() {
            break ;
        }
        match childs.next() {
            Some(scope) => {
                if !is_fn_resolved(&program.func[i], &scope) {
                    return false;
                }
            },
            None => {
                break ;
            },
        }
        i += 1;
    }
    true
}

} // verus!
