//! From a program to its symbol lookup table: the program gets a scope,
//! each function a scope nested in it with its parameters and the variables
//! that it declares.

use vstd::prelude::*;

use super::expression::declared;
use super::item::nowhere;
use super::slt::{lemma_add_function_wf, lemma_add_variable_wf, lemma_children_wf, lemma_empty_wf};
use super::slt::{put_child, take_last_child};
use super::slt::{Builder, SltView, SymbolLookupTable, Value, Variable};
use super::{extrn_signature, fn_signature, parameter};
use crate::ir::{Expr, ExprView, Extrn, ExtrnView, Fn, FnView, InnerType, Lit, Program, ProgramView};
use crate::ir::{Stmt, StmtView, Type};
use crate::lexer::token::Span;

verus! {

/// What a visit has made of the table.
pub struct Visit {
    /// `false` where a scope had no slot left, no number was left for a new
    /// scope, or a scope was nested as deep as a scope can be
    pub ok: bool,
    /// the number of scopes made so far
    pub regions: u32,
    pub slt: SltView,
}

/// The scope after the visit of a statement: the declaration of a literal
/// declares a variable.
pub open spec fn visit_stmt(stmt: StmtView, scope: SltView) -> (bool, SltView) {
    match stmt {
        StmtView::Let { id, value: ExprView::Lit(lit) } => if scope.offset < i32::MAX {
            (true, scope.add_variable(declared(id, lit), nowhere()))
        } else {
            (false, scope)
        },
        _ => (true, scope),
    }
}

/// The scope after the visit of the statements from the `i`th on, up to
/// the first that fails.
pub open spec fn visit_stmts(stmts: Seq<StmtView>, scope: SltView, i: nat) -> (bool, SltView)
    decreases stmts.len() - i,
{
    if i >= stmts.len() {
        (true, scope)
    } else if visit_stmt(stmts[i as int], scope).0 {
        visit_stmts(stmts, visit_stmt(stmts[i as int], scope).1, i + 1)
    } else {
        visit_stmt(stmts[i as int], scope)
    }
}

/// The scope after the declaration of the parameters from the `i`th on, up
/// to the first for which no slot is left.
pub open spec fn visit_params(params: Seq<(Seq<u8>, Type)>, scope: SltView, i: nat) -> (
    bool,
    SltView,
)
    decreases params.len() - i,
{
    if i >= params.len() {
        (true, scope)
    } else if scope.offset < i32::MAX {
        visit_params(
            params,
            scope.add_variable(parameter(params[i as int].0, params[i as int].1), nowhere()),
            i + 1,
        )
    } else {
        (false, scope)
    }
}

/// The table after the visit of a function: a scope is nested in `slt`
/// behind the others, with the parameters of the function and then the
/// variables that its statements declare, and the function is declared in
/// `slt`.
pub open spec fn visit_fn(func: FnView, regions: u32, slt: SltView) -> Visit {
    if regions >= u32::MAX || slt.scope >= u32::MAX {
        Visit { ok: false, regions, slt }
    } else {
        let empty = SltView::empty(regions, (slt.scope + 1) as u32);
        let with_params = visit_params(func.args, empty, 0);
        let scope = if with_params.0 {
            visit_stmts(func.stmts, with_params.1, 0)
        } else {
            with_params
        };
        let nested = SltView { children: slt.children.push(scope.1), ..slt };
        Visit {
            ok: scope.0,
            regions: (regions + 1) as u32,
            slt: if scope.0 {
                nested.add_function(fn_signature(func), nowhere())
            } else {
                nested
            },
        }
    }
}

/// The table after the visit of the functions from the `i`th on, up to the
/// first that fails.
pub open spec fn visit_fns(funcs: Seq<FnView>, regions: u32, slt: SltView, i: nat) -> Visit
    decreases funcs.len() - i,
{
    if i >= funcs.len() {
        Visit { ok: true, regions, slt }
    } else {
        let one = visit_fn(funcs[i as int], regions, slt);
        if one.ok {
            visit_fns(funcs, one.regions, one.slt, i + 1)
        } else {
            one
        }
    }
}

/// The scope after the declaration of the external functions from the
/// `i`th on.
pub open spec fn visit_extrns(extrns: Seq<ExtrnView>, slt: SltView, i: nat) -> SltView
    decreases extrns.len() - i,
{
    if i >= extrns.len() {
        slt
    } else {
        visit_extrns(extrns, slt.add_function(extrn_signature(extrns[i as int]), nowhere()), i + 1)
    }
}

/// The table after the visit of a program: a scope for the program is
/// nested in `slt` behind the others; it declares the external functions
/// and the functions, and holds the scopes of the functions.
pub open spec fn visit_program(program: ProgramView, regions: u32, slt: SltView) -> Visit {
    if regions >= u32::MAX || slt.scope >= u32::MAX {
        Visit { ok: false, regions, slt }
    } else {
        let inner = visit_fns(
            program.func,
            (regions + 1) as u32,
            visit_extrns(program.extrn, SltView::empty(regions, (slt.scope + 1) as u32), 0),
            0,
        );
        Visit {
            ok: inner.ok,
            regions: inner.regions,
            slt: SltView { children: slt.children.push(inner.slt), ..slt },
        }
    }
}

/// The visit of statements keeps the depth of the scope, and keeps it in
/// order.
pub proof fn lemma_visit_stmts(stmts: Seq<StmtView>, scope: SltView, i: nat)
    ensures
        visit_stmts(stmts, scope, i).1.scope == scope.scope,
        scope.wf() ==> visit_stmts(stmts, scope, i).1.wf(),
    decreases stmts.len() - i,
{
    if i < stmts.len() {
        let one = visit_stmt(stmts[i as int], scope);
        match stmts[i as int] {
            StmtView::Let { id, value: ExprView::Lit(lit) } => {
                if scope.offset < i32::MAX && scope.wf() {
                    lemma_add_variable_wf(scope, declared(id, lit), nowhere());
                }
            },
            _ => {},
        }
        if one.0 {
            lemma_visit_stmts(stmts, one.1, i + 1);
        }
    }
}

/// The declaration of parameters keeps the depth of the scope, and keeps
/// it in order.
pub proof fn lemma_visit_params(params: Seq<(Seq<u8>, Type)>, scope: SltView, i: nat)
    ensures
        visit_params(params, scope, i).1.scope == scope.scope,
        scope.wf() ==> visit_params(params, scope, i).1.wf(),
    decreases params.len() - i,
{
    if i < params.len() && scope.offset < i32::MAX {
        let var = parameter(params[i as int].0, params[i as int].1);
        if scope.wf() {
            lemma_add_variable_wf(scope, var, nowhere());
        }
        lemma_visit_params(params, scope.add_variable(var, nowhere()), i + 1);
    }
}

/// The visit of a function keeps the depth of the table, and keeps it in
/// order.
pub proof fn lemma_visit_fn(func: FnView, regions: u32, slt: SltView)
    ensures
        visit_fn(func, regions, slt).slt.scope == slt.scope,
        slt.wf() ==> visit_fn(func, regions, slt).slt.wf(),
{
    if regions < u32::MAX && slt.scope < u32::MAX {
        let empty = SltView::empty(regions, (slt.scope + 1) as u32);
        lemma_empty_wf(regions, (slt.scope + 1) as u32);
        lemma_visit_params(func.args, empty, 0);
        let with_params = visit_params(func.args, empty, 0);
        lemma_visit_stmts(func.stmts, with_params.1, 0);
        let scope = if with_params.0 {
            visit_stmts(func.stmts, with_params.1, 0)
        } else {
            with_params
        };
        if slt.wf() {
            lemma_children_wf(slt, scope.1);
            let nested = SltView { children: slt.children.push(scope.1), ..slt };
            lemma_add_function_wf(nested, fn_signature(func), nowhere());
        }
    }
}

/// The visit of functions keeps the depth of the table, and keeps it in
/// order.
pub proof fn lemma_visit_fns(funcs: Seq<FnView>, regions: u32, slt: SltView, i: nat)
    ensures
        visit_fns(funcs, regions, slt, i).slt.scope == slt.scope,
        slt.wf() ==> visit_fns(funcs, regions, slt, i).slt.wf(),
    decreases funcs.len() - i,
{
    if i < funcs.len() {
        lemma_visit_fn(funcs[i as int], regions, slt);
        let one = visit_fn(funcs[i as int], regions, slt);
        if one.ok {
            lemma_visit_fns(funcs, one.regions, one.slt, i + 1);
        }
    }
}

/// The declaration of external functions keeps the depth of the scope, and
/// keeps it in order.
pub proof fn lemma_visit_extrns(extrns: Seq<ExtrnView>, slt: SltView, i: nat)
    ensures
        visit_extrns(extrns, slt, i).scope == slt.scope,
        slt.wf() ==> visit_extrns(extrns, slt, i).wf(),
    decreases extrns.len() - i,
{
    if i < extrns.len() {
        if slt.wf() {
            lemma_add_function_wf(slt, extrn_signature(extrns[i as int]), nowhere());
        }
        lemma_visit_extrns(
            extrns,
            slt.add_function(extrn_signature(extrns[i as int]), nowhere()),
            i + 1,
        );
    }
}

impl Stmt {
    /// Declares in `scope` what the statement declares, and says whether
    /// the scope could take it.
    pub fn visit(&self, scope: &mut SymbolLookupTable) -> (ok: bool)
        ensures
            (ok, final(scope)@) == visit_stmt(self@, old(scope)@),
    {
        match self {
            Stmt::Let { id, value } => match value {
                Expr::Lit(lit) => {
                    if scope.offset == i32::MAX {
                        return false;
                    }
                    let var = match lit {
                        Lit::Str(s) => Variable::with_value(
                            id.clone(),
                            Type::Val(InnerType::Str),
                            Value::Str(s.clone()),
                        ),
                        Lit::Int(i) => Variable::with_value(
                            id.clone(),
                            Type::Val(InnerType::Int),
                            Value::Int(*i),
                        ),
                        Lit::Bool(b) => Variable::with_value(
                            id.clone(),
                            Type::Val(InnerType::Bool),
                            Value::Bool(*b),
                        ),
                    };
                    scope.add_variable(var, Span { start: 0, end: 0, line: 0 });
                    true
                },
                _ => true,
            },
            _ => true,
        }
    }
}

impl Fn {
    /// Nests the scope of the function in `slt`, declares its parameters
    /// and its variables in it and the function in `slt`, and says whether
    /// the table could take them.
    pub fn visit(&self, builder: &mut Builder, slt: &mut SymbolLookupTable) -> (ok: bool)
        ensures
            (Visit { ok, regions: final(builder).region_count, slt: final(slt)@ }) == visit_fn(
                self@,
                old(builder).region_count,
                old(slt)@,
            ),
            old(slt).wf() ==> final(slt).wf(),
            final(slt).scope == old(slt).scope,
    {
        proof {
            lemma_visit_fn(self@, builder.region_count, slt@);
        }
        if builder.region_count == u32::MAX || slt.scope == u32::MAX {
            return false;
        }
        builder.new_region(slt);
        let mut child = take_last_child(slt, Ghost(old(slt)@), Ghost(old(builder).region_count));
        let ghost empty = child@;

        let mut ok = true;
        let ghost params = self@.args;
        let mut i: usize = 0;
        while i < self.args.len()
            invariant_except_break
                ok,
                visit_params(params, child@, i as nat) == visit_params(params, empty, 0),
            invariant
                i <= self.args@.len(),
                params == self@.args,
            ensures
                (ok, child@) == visit_params(params, empty, 0),
            decreases self.args@.len() - i,
        {
            if child.offset == i32::MAX {
                ok = false;
                break ;
            }
            child.add_variable(
                Variable::new(self.args[i].0.clone(), self.args[i].1),
                Span { start: 0, end: 0, line: 0 },
            );
            i += 1;
        }

        if ok {
            let ghost with_params = child@;
            let ghost stmts = self@.stmts;
            let mut k: usize = 0;
            while k < self.stmts.len()
                invariant_except_break
                    ok,
                    visit_stmts(stmts, child@, k as nat) == visit_stmts(stmts, with_params, 0),
                invariant
                    k <= self.stmts@.len(),
                    stmts == self@.stmts,
                ensures
                    (ok, child@) == visit_stmts(stmts, with_params, 0),
                decreases self.stmts@.len() - k,
            {
                if !self.stmts[k].visit(&mut child) {
                    ok = false;
                    break ;
                }
                k += 1;
            }
        }

        put_child(slt, child);
        if ok {
            slt.add_function(super::slt::Fn::from_fn(self), Span { start: 0, end: 0, line: 0 });
        }
        ok
    }
}

impl Program {
    /// Nests the scope of the program in `slt`, declares its functions in
    /// it, each with a scope of its own, and says whether the table could
    /// take them.
    pub fn visit(&self, builder: &mut Builder, slt: &mut SymbolLookupTable) -> (ok: bool)
        ensures
            (Visit { ok, regions: final(builder).region_count, slt: final(slt)@ })
                == visit_program(self@, old(builder).region_count, old(slt)@),
            old(slt).wf() ==> final(slt).wf(),
    {
        if builder.region_count == u32::MAX || slt.scope == u32::MAX {
            return false;
        }
        builder.new_region(slt);
        let mut child = take_last_child(slt, Ghost(old(slt)@), Ghost(old(builder).region_count));
        let ghost empty = child@;
        proof {
            lemma_visit_extrns(self@.extrn, empty, 0);
        }

        let ghost extrns = self@.extrn;
        let mut j: usize = 0;
        while j < self.extrn.len()
            invariant
                j <= self.extrn@.len(),
                extrns == self@.extrn,
                visit_extrns(extrns, child@, j as nat) == visit_extrns(extrns, empty, 0),
            decreases self.extrn@.len() - j,
        {
            child.add_function(
                super::slt::Fn::from_extrn(&self.extrn[j]),
                Span { start: 0, end: 0, line: 0 },
            );
            j += 1;
        }
        let ghost declared = child@;
        let ghost regions = builder.region_count;
        proof {
            lemma_visit_fns(self@.func, regions, declared, 0);
        }

        let mut ok = true;
        let ghost funcs = self@.func;
        let mut i: usize = 0;
        while i < self.func.len()
            invariant_except_break
                ok,
                visit_fns(funcs, builder.region_count, child@, i as nat) == visit_fns(
                    funcs,
                    regions,
                    declared,
                    0,
                ),
            invariant
                i <= self.func@.len(),
                funcs == self@.func,
            ensures
                (Visit { ok, regions: builder.region_count, slt: child@ }) == visit_fns(
                    funcs,
                    regions,
                    declared,
                    0,
                ),
            decreases self.func@.len() - i,
        {
            if !self.func[i].visit(builder, &mut child) {
                ok = false;
                break ;
            }
            i += 1;
        }

        put_child(slt, child);
        ok
    }
}

} // verus!
