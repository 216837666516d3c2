//! From a syntax tree to its symbol lookup table: each block gets a scope,
//! each declaration a variable in the scope of its block.

use vstd::prelude::*;

use super::ast;
use super::slt::{lemma_children_wf, lemma_empty_wf, put_child, take_last_child};
use super::slt::{Builder, SltView, SymbolLookupTable, Value, ValueView, Variable};
use super::slt::VariableView;
use crate::ir::{InnerType, Type};
use crate::lexer::token::Span;

verus! {

/// The span of a declaration whose place in the source is not known.
pub open spec fn nowhere() -> Span {
    Span { start: 0, end: 0, line: 0 }
}

/// The variable that a declaration with the value `lit` declares, not yet
/// placed in a table.
pub open spec fn declared(id: Seq<u8>, lit: ast::Lit) -> VariableView {
    match lit {
        ast::Lit::NegInt(v) => VariableView {
            id,
            ty: Type::Val(InnerType::Int),
            value: ValueView::Int((-(v as int)) as i64),
            offset: 0,
            scope: 0,
        },
        ast::Lit::Int(v) => VariableView {
            id,
            ty: Type::Val(InnerType::Int),
            value: ValueView::Int(v as i64),
            offset: 0,
            scope: 0,
        },
        ast::Lit::Str(s) => VariableView {
            id,
            ty: Type::Val(InnerType::Str),
            value: ValueView::Str(s@),
            offset: 0,
            scope: 0,
        },
        ast::Lit::Bool(b) => VariableView {
            id,
            ty: Type::Val(InnerType::Bool),
            value: ValueView::Bool(b),
            offset: 0,
            scope: 0,
        },
    }
}

/// What a visit has made of the table.
pub struct Visit {
    /// `false` where a scope had no slot left, no number was left for a new
    /// scope, or a block was nested as deep as a scope can be
    pub ok: bool,
    /// the number of scopes made so far
    pub regions: u32,
    pub slt: SltView,
}

/// The table after the visit of a statement. The declaration of a literal
/// declares a variable in `slt`; a condition nests a scope for its body
/// and one for its alternative, and visits them.
pub open spec fn visit_stmt(stmt: ast::Stmt, regions: u32, slt: SltView) -> Visit
    decreases stmt, 0nat,
{
    match stmt {
        ast::Stmt::Let { var_name, value } => match *value {
            ast::Expr::Literal(lit) => if slt.offset < i32::MAX {
                Visit { ok: true, regions, slt: slt.add_variable(declared(var_name@, lit), nowhere()) }
            } else {
                Visit { ok: false, regions, slt }
            },
            _ => Visit { ok: true, regions, slt },
        },
        ast::Stmt::IfStmt { condition, body, else_stmt } => {
            let then = visit_block(body@, regions, slt);
            match else_stmt {
                Some(stmts) => if then.ok {
                    visit_block(stmts@, then.regions, then.slt)
                } else {
                    then
                },
                None => then,
            }
        },
        _ => Visit { ok: true, regions, slt },
    }
}

/// The table after the visit of a block: a new scope is nested in `slt`
/// behind the others, and the statements of the block are visited in it.
pub open spec fn visit_block(stmts: Seq<ast::Stmt>, regions: u32, slt: SltView) -> Visit
    decreases stmts, stmts.len() + 2,
{
    if regions >= u32::MAX || slt.scope >= u32::MAX {
        Visit { ok: false, regions, slt }
    } else {
        let inner = visit_stmts(
            stmts,
            (regions + 1) as u32,
            SltView::empty(regions, (slt.scope + 1) as u32),
            0,
        );
        Visit {
            ok: inner.ok,
            regions: inner.regions,
            slt: SltView { children: slt.children.push(inner.slt), ..slt },
        }
    }
}

/// The table after the visit of the statements from the `i`th on, up to
/// the first that fails.
pub open spec fn visit_stmts(stmts: Seq<ast::Stmt>, regions: u32, slt: SltView, i: nat) -> Visit
    decreases stmts, stmts.len() - i + 1,
{
    if i >= stmts.len() {
        Visit { ok: true, regions, slt }
    } else {
        let one = visit_stmt(stmts[i as int], regions, slt);
        if one.ok {
            visit_stmts(stmts, one.regions, one.slt, i + 1)
        } else {
            one
        }
    }
}

/// The table after the visit of an item: the program is a block.
pub open spec fn visit_item(item: ast::Item, regions: u32, slt: SltView) -> Visit {
    match item {
        ast::Item::Main { body } => visit_block(body@, regions, slt),
    }
}

/// A visit keeps the depth of the table, and keeps it in order.
pub proof fn lemma_visit_stmt(stmt: ast::Stmt, regions: u32, slt: SltView)
    ensures
        visit_stmt(stmt, regions, slt).slt.scope == slt.scope,
        slt.wf() ==> visit_stmt(stmt, regions, slt).slt.wf(),
    decreases stmt, 0nat,
{
    match stmt {
        ast::Stmt::Let { var_name, value } => match *value {
            ast::Expr::Literal(lit) => {
                if slt.offset < i32::MAX && slt.wf() {
                    super::slt::lemma_add_variable_wf(slt, declared(var_name@, lit), nowhere());
                }
            },
            _ => {},
        },
        ast::Stmt::IfStmt { condition, body, else_stmt } => {
            lemma_visit_block(body@, regions, slt);
            let then = visit_block(body@, regions, slt);
            match else_stmt {
                Some(stmts) => {
                    if then.ok {
                        lemma_visit_block(stmts@, then.regions, then.slt);
                    }
                },
                None => {},
            }
        },
        _ => {},
    }
}

pub proof fn lemma_visit_block(stmts: Seq<ast::Stmt>, regions: u32, slt: SltView)
    ensures
        visit_block(stmts, regions, slt).slt.scope == slt.scope,
        slt.wf() ==> visit_block(stmts, regions, slt).slt.wf(),
    decreases stmts, stmts.len() + 2,
{
    if regions < u32::MAX && slt.scope < u32::MAX {
        let empty = SltView::empty(regions, (slt.scope + 1) as u32);
        lemma_empty_wf(regions, (slt.scope + 1) as u32);
        lemma_visit_stmts(stmts, (regions + 1) as u32, empty, 0);
        if slt.wf() {
            lemma_children_wf(slt, visit_stmts(stmts, (regions + 1) as u32, empty, 0).slt);
        }
    }
}

pub proof fn lemma_visit_stmts(stmts: Seq<ast::Stmt>, regions: u32, slt: SltView, i: nat)
    ensures
        visit_stmts(stmts, regions, slt, i).slt.scope == slt.scope,
        slt.wf() ==> visit_stmts(stmts, regions, slt, i).slt.wf(),
    decreases stmts, stmts.len() - i + 1,
{
    if i < stmts.len() {
        lemma_visit_stmt(stmts[i as int], regions, slt);
        let one = visit_stmt(stmts[i as int], regions, slt);
        if one.ok {
            lemma_visit_stmts(stmts, one.regions, one.slt, i + 1);
        }
    }
}

impl ast::Lit {
    /// The value with which a variable is declared by this literal.
    pub fn value(&self) -> (v: Value)
        ensures
            v@ == declared(Seq::empty(), *self).value,
    {
        match self {
            ast::Lit::NegInt(v) => Value::Int(-(*v as i64)),
            ast::Lit::Int(v) => Value::Int(*v as i64),
            ast::Lit::Str(s) => Value::Str(s.clone()),
            ast::Lit::Bool(b) => Value::Bool(*b),
        }
    }

    /// The type of this literal.
    pub fn ty(&self) -> (t: Type)
        ensures
            t == declared(Seq::empty(), *self).ty,
    {
        match self {
            ast::Lit::NegInt(_) => Type::Val(InnerType::Int),
            ast::Lit::Int(_) => Type::Val(InnerType::Int),
            ast::Lit::Str(_) => Type::Val(InnerType::Str),
            ast::Lit::Bool(_) => Type::Val(InnerType::Bool),
        }
    }
}

/// Visits a block: nests a scope in `slt` and visits the statements in it.
pub fn visit_block_of(stmts: &Vec<ast::Stmt>, builder: &mut Builder, slt: &mut SymbolLookupTable) -> (ok:
    bool)
    ensures
        (Visit { ok, regions: final(builder).region_count, slt: final(slt)@ }) == visit_block(
            stmts@,
            old(builder).region_count,
            old(slt)@,
        ),
        old(slt).wf() ==> final(slt).wf(),
    decreases stmts, stmts.len() + 2,
{
    if builder.region_count == u32::MAX || slt.scope == u32::MAX {
        return false;
    }
    builder.new_region(slt);
    let mut child = take_last_child(slt, Ghost(old(slt)@), Ghost(old(builder).region_count));
    let ghost empty = child@;
    let ghost regions = builder.region_count;

    let mut ok = true;
    let mut i: usize = 0;
    while i < stmts.len()
        invariant_except_break
            ok,
            visit_stmts(stmts@, builder.region_count, child@, i as nat) == visit_stmts(
                stmts@,
                regions,
                empty,
                0,
            ),
        invariant
            i <= stmts@.len(),
            child.wf(),
            child.scope == old(slt).scope + 1,
        ensures
            (Visit { ok, regions: builder.region_count, slt: child@ }) == visit_stmts(
                stmts@,
                regions,
                empty,
                0,
            ),
            child.wf(),
            child.scope == old(slt).scope + 1,
        decreases stmts@.len() - i,
    {
        proof {
            lemma_visit_stmt(stmts@[i as int], builder.region_count, child@);
        }
        if !stmts[i].visit(builder, &mut child) {
            ok = false;
            break ;
        }
        i += 1;
    }

    put_child(slt, child);
    ok
}

impl ast::Stmt {
    /// Declares what the statement declares in `slt`, and says whether
    /// the table could take it.
    pub fn visit(&self, builder: &mut Builder, slt: &mut SymbolLookupTable) -> (ok: bool)
        ensures
            (Visit { ok, regions: final(builder).region_count, slt: final(slt)@ }) == visit_stmt(
                *self,
                old(builder).region_count,
                old(slt)@,
            ),
            old(slt).wf() ==> final(slt).wf(),
            final(slt).scope == old(slt).scope,
        decreases self, 0nat,
    {
        proof {
            lemma_visit_stmt(*self, builder.region_count, slt@);
        }
        match self {
            ast::Stmt::Let { var_name, value } => match &**value {
                ast::Expr::Literal(lit) => {
                    if slt.offset == i32::MAX {
                        return false;
                    }
                    let var = Variable::with_value(var_name.clone(), lit.ty(), lit.value());
                    slt.add_variable(var, Span { start: 0, end: 0, line: 0 });
                    true
                },
                _ => true,
            },
            ast::Stmt::IfStmt { condition, body, else_stmt } => {
                if !visit_block_of(body, builder, slt) {
                    return false;
                }
                match else_stmt {
                    Some(stmts) => visit_block_of(stmts, builder, slt),
                    None => true,
                }
            },
            _ => true,
        }
    }
}

impl ast::Item {
    /// Nests the scope of the program in `slt` and declares its variables,
    /// and says whether the table could take them.
    pub fn visit(&self, builder: &mut Builder, slt: &mut SymbolLookupTable) -> (ok: bool)
        ensures
            (Visit { ok, regions: final(builder).region_count, slt: final(slt)@ }) == visit_item(
                *self,
                old(builder).region_count,
                old(slt)@,
            ),
            old(slt).wf() ==> final(slt).wf(),
    {
        match self {
            ast::Item::Main { body } => visit_block_of(body, builder, slt),
        }
    }
}

} // verus!
