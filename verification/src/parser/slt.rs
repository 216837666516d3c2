//! The symbol lookup table: a tree of scopes, one per function or nested
//! block, that maps identifiers to their type and to the slot of the stack
//! frame that holds them.

use vstd::prelude::*;

use crate::ir::Type;
use crate::lexer::token::Span;
use crate::text::bytes_eq;

verus! {

/// One scope: what is declared in it, and the scopes nested in it in the
/// order of their declaration.
pub struct SymbolLookupTable {
    /// the variables of this scope, each name once
    pub variables: Vec<(Variable, Span)>,
    /// the functions of this scope, each name once
    pub funcs: Vec<(Fn, Span)>,
    /// the slot that was handed out last
    pub offset: i32,
    pub region: u32,
    /// the depth of the scope: 0 for the root
    pub scope: u32,
    pub children: Vec<SymbolLookupTable>,
}

#[derive(Debug)]
pub struct Variable {
    pub id: Vec<u8>,
    pub ty: Type,
    pub value: Value,
    /// the slot of the variable in the frame of its scope, counted from 1
    pub offset: i32,
    /// the depth of the scope that declares the variable
    pub scope: u32,
}

/// The signature of a function.
#[derive(Debug)]
pub struct Fn {
    pub id: Vec<u8>,
    pub ty: Type,
    pub args: Vec<Type>,
    /// the number of fixed parameters, where the function is variadic
    pub variadic: Option<usize>,
}

/// The value that a variable was declared with.
#[derive(Debug)]
pub enum Value {
    /// declared without a value: a parameter
    Unset,
    Str(Vec<u8>),
    Int(i64),
    Bool(bool),
}

// ---------------------------------------------------------------------------
// The mathematical values that these types stand for.
// ---------------------------------------------------------------------------
pub enum ValueView {
    Unset,
    Str(Seq<u8>),
    Int(i64),
    Bool(bool),
}

pub struct VariableView {
    pub id: Seq<u8>,
    pub ty: Type,
    pub value: ValueView,
    pub offset: i32,
    pub scope: u32,
}

pub struct FnView {
    pub id: Seq<u8>,
    pub ty: Type,
    pub args: Seq<Type>,
    pub variadic: Option<usize>,
}

pub struct SltView {
    pub variables: Seq<(VariableView, Span)>,
    pub funcs: Seq<(FnView, Span)>,
    pub offset: i32,
    pub region: u32,
    pub scope: u32,
    pub children: Seq<SltView>,
}

impl View for Value {
    type V = ValueView;

    open spec fn view(&self) -> ValueView {
        match self {
            Value::Unset => ValueView::Unset,
            Value::Str(s) => ValueView::Str(s@),
            Value::Int(i) => ValueView::Int(*i),
            Value::Bool(b) => ValueView::Bool(*b),
        }
    }
}

impl View for Variable {
    type V = VariableView;

    open spec fn view(&self) -> VariableView {
        VariableView {
            id: self.id@,
            ty: self.ty,
            value: self.value@,
            offset: self.offset,
            scope: self.scope,
        }
    }
}

impl View for Fn {
    type V = FnView;

    open spec fn view(&self) -> FnView {
        FnView { id: self.id@, ty: self.ty, args: self.args@, variadic: self.variadic }
    }
}

/// The variables of a scope as mathematical values.
pub open spec fn variables_view(vars: Seq<(Variable, Span)>) -> Seq<(VariableView, Span)> {
    vars.map_values(|e: (Variable, Span)| (e.0@, e.1))
}

/// The functions of a scope as mathematical values.
pub open spec fn funcs_view(funcs: Seq<(Fn, Span)>) -> Seq<(FnView, Span)> {
    funcs.map_values(|e: (Fn, Span)| (e.0@, e.1))
}

/// The value of a table.
pub open spec fn slt_view(t: SymbolLookupTable) -> SltView
    decreases t,
{
    SltView {
        variables: variables_view(t.variables@),
        funcs: funcs_view(t.funcs@),
        offset: t.offset,
        region: t.region,
        scope: t.scope,
        children: slts_view(t.children@),
    }
}

/// The values of a list of tables, one by one.
pub open spec fn slts_view(ts: Seq<SymbolLookupTable>) -> Seq<SltView>
    decreases ts,
{
    if ts.len() == 0 {
        Seq::empty()
    } else {
        slts_view(ts.drop_last()).push(slt_view(ts.last()))
    }
}

/// The values of a list of tables are the values of its items.
pub proof fn lemma_slts_view(ts: Seq<SymbolLookupTable>)
    ensures
        slts_view(ts).len() == ts.len(),
        forall|i: int| 0 <= i < ts.len() ==> #[trigger] slts_view(ts)[i] == ts[i]@,
    decreases ts.len(),
{
    if ts.len() > 0 {
        lemma_slts_view(ts.drop_last());
    }
}

/// The values of a list of tables to which one table was added.
pub proof fn lemma_slts_view_push(ts: Seq<SymbolLookupTable>, t: SymbolLookupTable)
    ensures
        slts_view(ts.push(t)) == slts_view(ts).push(t@),
{
    assert(ts.push(t).drop_last() =~= ts);
}

impl View for SymbolLookupTable {
    type V = SltView;

    open spec fn view(&self) -> SltView {
        slt_view(*self)
    }
}

/// The place of the first variable named `id`, from `from` on.
pub open spec fn variable_index(vars: Seq<(VariableView, Span)>, id: Seq<u8>, from: int) -> Option<
    int,
>
    decreases vars.len() - from,
{
    if from < 0 || from >= vars.len() {
        None
    } else if vars[from].0.id == id {
        Some(from)
    } else {
        variable_index(vars, id, from + 1)
    }
}

/// The place of the first function named `id`, from `from` on.
pub open spec fn function_index(funcs: Seq<(FnView, Span)>, id: Seq<u8>, from: int) -> Option<int>
    decreases funcs.len() - from,
{
    if from < 0 || from >= funcs.len() {
        None
    } else if funcs[from].0.id == id {
        Some(from)
    } else {
        function_index(funcs, id, from + 1)
    }
}

/// A table and all tables below it are in order.
pub open spec fn slt_wf(t: SltView) -> bool
    decreases t,
{
    &&& t.offset >= 0
    &&& forall|i: int, j: int|
        0 <= i < j < t.variables.len() ==> (#[trigger] t.variables[i]).0.id != (
        #[trigger] t.variables[j]).0.id
    &&& forall|i: int, j: int|
        0 <= i < j < t.variables.len() ==> (#[trigger] t.variables[i]).0.offset != (
        #[trigger] t.variables[j]).0.offset
    &&& forall|i: int|
        0 <= i < t.variables.len() ==> {
            &&& (#[trigger] t.variables[i]).0.scope == t.scope
            &&& 1 <= t.variables[i].0.offset <= t.offset
        }
    &&& forall|i: int, j: int|
        0 <= i < j < t.funcs.len() ==> (#[trigger] t.funcs[i]).0.id != (#[trigger] t.funcs[j]).0.id
    &&& forall|k: int|
        0 <= k < t.children.len() ==> {
            &&& (#[trigger] t.children[k]).scope == t.scope + 1
            &&& slt_wf(t.children[k])
        }
}

impl SltView {
    /// The table is in order: in each scope every name is declared once,
    /// every variable has a slot of its own between 1 and the slot handed
    /// out last and carries the depth of its scope, and each nested scope is
    /// one deeper than the scope around it.
    pub open spec fn wf(self) -> bool {
        slt_wf(self)
    }

    /// The empty table of a scope.
    pub open spec fn empty(region: u32, scope: u32) -> SltView {
        SltView {
            variables: Seq::empty(),
            funcs: Seq::empty(),
            offset: 0,
            region,
            scope,
            children: Seq::empty(),
        }
    }

    /// The entry of the variable named `id` in this scope.
    pub open spec fn variable_entry(self, id: Seq<u8>) -> Option<(VariableView, Span)> {
        match variable_index(self.variables, id, 0) {
            Some(i) => Some(self.variables[i]),
            None => None,
        }
    }

    /// The variable named `id` in this scope.
    pub open spec fn get_variable(self, id: Seq<u8>) -> Option<VariableView> {
        match self.variable_entry(id) {
            Some(e) => Some(e.0),
            None => None,
        }
    }

    /// The entry of the function named `id` in this scope.
    pub open spec fn function_entry(self, id: Seq<u8>) -> Option<(FnView, Span)> {
        match function_index(self.funcs, id, 0) {
            Some(i) => Some(self.funcs[i]),
            None => None,
        }
    }

    /// The function named `id` in this scope.
    pub open spec fn get_function(self, id: Seq<u8>) -> Option<FnView> {
        match self.function_entry(id) {
            Some(e) => Some(e.0),
            None => None,
        }
    }

    /// The variable as the table stores it: in the next slot, at the depth
    /// of this scope.
    pub open spec fn placed(self, var: VariableView) -> VariableView {
        VariableView { offset: (self.offset + 1) as i32, scope: self.scope, ..var }
    }

    /// The table after the declaration of `var`: the variable takes the
    /// next slot, and its entry stands in the place of an earlier entry of
    /// the same name where there is one, and behind all others where there
    /// is none.
    pub open spec fn add_variable(self, var: VariableView, span: Span) -> SltView {
        let entry = (self.placed(var), span);
        SltView {
            offset: (self.offset + 1) as i32,
            variables: match variable_index(self.variables, var.id, 0) {
                Some(i) => self.variables.update(i, entry),
                None => self.variables.push(entry),
            },
            ..self
        }
    }

    /// The table after the declaration of `func`.
    pub open spec fn add_function(self, func: FnView, span: Span) -> SltView {
        SltView {
            funcs: match function_index(self.funcs, func.id, 0) {
                Some(i) => self.funcs.update(i, (func, span)),
                None => self.funcs.push((func, span)),
            },
            ..self
        }
    }

    /// The table with a new, empty scope nested in it behind the others.
    pub open spec fn add_child(self, region: u32) -> SltView {
        SltView {
            children: self.children.push(SltView::empty(region, (self.scope + 1) as u32)),
            ..self
        }
    }

    /// The table with its last nested scope replaced.
    pub open spec fn with_last_child(self, child: SltView) -> SltView {
        SltView { children: self.children.update(self.children.len() - 1, child), ..self }
    }
}

/// What `variable_index` finds is named as asked, and nothing in front of
/// it is.
pub proof fn lemma_variable_index(vars: Seq<(VariableView, Span)>, id: Seq<u8>, from: int)
    requires
        0 <= from,
    ensures
        match variable_index(vars, id, from) {
            Some(i) => from <= i < vars.len() && vars[i].0.id == id,
            None => forall|k: int| from <= k < vars.len() ==> (#[trigger] vars[k]).0.id != id,
        },
    decreases vars.len() - from,
{
    if from < vars.len() && vars[from].0.id != id {
        lemma_variable_index(vars, id, from + 1);
    }
}

/// In a list in which every name occurs once, the variable named `id` is
/// found at its place.
pub proof fn lemma_variable_index_unique(vars: Seq<(VariableView, Span)>, id: Seq<u8>, at: int)
    requires
        0 <= at < vars.len(),
        vars[at].0.id == id,
        forall|i: int, j: int|
            0 <= i < j < vars.len() ==> (#[trigger] vars[i]).0.id != (#[trigger] vars[j]).0.id,
    ensures
        variable_index(vars, id, 0) == Some(at),
{
    lemma_variable_index(vars, id, 0);
    let found = variable_index(vars, id, 0);
    assert(found is Some);
    if found->0 != at {
        if found->0 < at {
            assert(vars[found->0].0.id != vars[at].0.id);
        } else {
            assert(vars[at].0.id != vars[found->0].0.id);
        }
    }
}

/// What `function_index` finds is named as asked, and nothing in front of
/// it is.
pub proof fn lemma_function_index(funcs: Seq<(FnView, Span)>, id: Seq<u8>, from: int)
    requires
        0 <= from,
    ensures
        match function_index(funcs, id, from) {
            Some(i) => from <= i < funcs.len() && funcs[i].0.id == id,
            None => forall|k: int| from <= k < funcs.len() ==> (#[trigger] funcs[k]).0.id != id,
        },
    decreases funcs.len() - from,
{
    if from < funcs.len() && funcs[from].0.id != id {
        lemma_function_index(funcs, id, from + 1);
    }
}

/// A declaration keeps the table in order.
pub proof fn lemma_add_variable_wf(t: SltView, var: VariableView, span: Span)
    requires
        t.wf(),
        t.offset < i32::MAX,
    ensures
        t.add_variable(var, span).wf(),
        t.add_variable(var, span).get_variable(var.id) == Some(t.placed(var)),
        t.add_variable(var, span).variables.len() == if t.get_variable(var.id) is Some {
            t.variables.len()
        } else {
            t.variables.len() + 1
        },
        forall|other: Seq<u8>|
            other != var.id ==> t.add_variable(var, span).get_variable(other) == t.get_variable(
                other,
            ),
{
    let new = t.add_variable(var, span);
    let entry = (t.placed(var), span);
    lemma_variable_index(t.variables, var.id, 0);
    match variable_index(t.variables, var.id, 0) {
        Some(i) => {
            assert(new.variables == t.variables.update(i, entry));
            assert forall|a: int, b: int| 0 <= a < b < new.variables.len() implies (
            #[trigger] new.variables[a]).0.id != (#[trigger] new.variables[b]).0.id by {
                assert(t.variables[a].0.id != t.variables[b].0.id);
            }
            assert forall|a: int, b: int| 0 <= a < b < new.variables.len() implies (
            #[trigger] new.variables[a]).0.offset != (#[trigger] new.variables[b]).0.offset by {
                assert(t.variables[a].0.offset != t.variables[b].0.offset);
                assert(t.variables[a].0.offset <= t.offset);
                assert(t.variables[b].0.offset <= t.offset);
            }
            lemma_variable_index_unique(new.variables, var.id, i);
        },
        None => {
            assert(new.variables == t.variables.push(entry));
            assert forall|a: int, b: int| 0 <= a < b < new.variables.len() implies (
            #[trigger] new.variables[a]).0.id != (#[trigger] new.variables[b]).0.id by {
                if b < t.variables.len() {
                    assert(t.variables[a].0.id != t.variables[b].0.id);
                } else {
                    assert(t.variables[a].0.id != var.id);
                }
            }
            assert forall|a: int, b: int| 0 <= a < b < new.variables.len() implies (
            #[trigger] new.variables[a]).0.offset != (#[trigger] new.variables[b]).0.offset by {
                if b < t.variables.len() {
                    assert(t.variables[a].0.offset != t.variables[b].0.offset);
                } else {
                    assert(t.variables[a].0.offset <= t.offset);
                }
            }
            lemma_variable_index_unique(new.variables, var.id, t.variables.len() as int);
        },
    }
    assert forall|k: int| 0 <= k < new.children.len() implies {
        &&& (#[trigger] new.children[k]).scope == new.scope + 1
        &&& slt_wf(new.children[k])
    } by {
        assert(t.children[k].scope == t.scope + 1);
    }
    assert forall|a: int| 0 <= a < new.variables.len() implies {
        &&& (#[trigger] new.variables[a]).0.scope == new.scope
        &&& 1 <= new.variables[a].0.offset <= new.offset
    } by {
        if a < t.variables.len() && new.variables[a] == t.variables[a] {
            assert(t.variables[a].0.scope == t.scope);
        }
    }
    assert forall|a: int, b: int| 0 <= a < b < new.funcs.len() implies (#[trigger] new.funcs[a]).0.id
        != (#[trigger] new.funcs[b]).0.id by {
        assert(t.funcs[a].0.id != t.funcs[b].0.id);
    }
    assert forall|other: Seq<u8>| other != var.id implies new.get_variable(other)
        == t.get_variable(other) by {
        lemma_variable_index(t.variables, other, 0);
        lemma_variable_index(new.variables, other, 0);
        match variable_index(t.variables, other, 0) {
            Some(k) => {
                assert(new.variables[k] == t.variables[k]);
                lemma_variable_index_unique(new.variables, other, k);
            },
            None => {
                if variable_index(new.variables, other, 0) is Some {
                    let k = variable_index(new.variables, other, 0)->0;
                    if k < t.variables.len() {
                        assert(t.variables[k].0.id != other);
                    }
                }
            },
        }
    }
}


/// The empty table of a scope is in order.
pub proof fn lemma_empty_wf(region: u32, scope: u32)
    ensures
        SltView::empty(region, scope).wf(),
{
}

/// A declaration of a function keeps the table in order.
pub proof fn lemma_add_function_wf(t: SltView, func: FnView, span: Span)
    requires
        t.wf(),
    ensures
        t.add_function(func, span).wf(),
        t.add_function(func, span).get_function(func.id) == Some(func),
{
    let new = t.add_function(func, span);
    lemma_function_index(t.funcs, func.id, 0);
    let at = match function_index(t.funcs, func.id, 0) {
        Some(i) => i,
        None => t.funcs.len() as int,
    };
    assert forall|a: int, b: int| 0 <= a < b < new.funcs.len() implies (#[trigger] new.funcs[a]).0.id
        != (#[trigger] new.funcs[b]).0.id by {
        if b < t.funcs.len() {
            assert(t.funcs[a].0.id != t.funcs[b].0.id);
        } else {
            assert(t.funcs[a].0.id != func.id);
        }
    }
    assert forall|a: int, b: int| 0 <= a < b < new.variables.len() implies (
    #[trigger] new.variables[a]).0.id != (#[trigger] new.variables[b]).0.id by {
        assert(t.variables[a].0.id != t.variables[b].0.id);
    }
    assert forall|a: int, b: int| 0 <= a < b < new.variables.len() implies (
    #[trigger] new.variables[a]).0.offset != (#[trigger] new.variables[b]).0.offset by {
        assert(t.variables[a].0.offset != t.variables[b].0.offset);
    }
    assert forall|a: int| 0 <= a < new.variables.len() implies {
        &&& (#[trigger] new.variables[a]).0.scope == new.scope
        &&& 1 <= new.variables[a].0.offset <= new.offset
    } by {
        assert(t.variables[a].0.scope == t.scope);
    }
    assert forall|k: int| 0 <= k < new.children.len() implies {
        &&& (#[trigger] new.children[k]).scope == new.scope + 1
        &&& slt_wf(new.children[k])
    } by {
        assert(t.children[k].scope == t.scope + 1);
    }
    lemma_function_index(new.funcs, func.id, 0);
    let found = function_index(new.funcs, func.id, 0);
    assert(new.funcs[at].0.id == func.id);
    assert(found is Some);
    if found->0 < at {
        assert(new.funcs[found->0].0.id != new.funcs[at].0.id);
    } else if found->0 > at {
        assert(new.funcs[at].0.id != new.funcs[found->0].0.id);
    }
}

/// A table stays in order when a scope that is in order, and one deeper,
/// takes the place of its last nested scope, or is added behind the others.
pub proof fn lemma_children_wf(t: SltView, child: SltView)
    requires
        t.wf(),
        child.wf(),
        child.scope == t.scope + 1,
    ensures
        t.children.len() > 0 ==> t.with_last_child(child).wf(),
        (SltView { children: t.children.push(child), ..t }).wf(),
{
    let pushed = SltView { children: t.children.push(child), ..t };
    assert forall|k: int| 0 <= k < pushed.children.len() implies {
        &&& (#[trigger] pushed.children[k]).scope == pushed.scope + 1
        &&& slt_wf(pushed.children[k])
    } by {
        if k < t.children.len() {
            assert(t.children[k].scope == t.scope + 1);
        }
    }
    lemma_same_entries_wf(t, pushed);
    if t.children.len() > 0 {
        let replaced = t.with_last_child(child);
        assert forall|k: int| 0 <= k < replaced.children.len() implies {
            &&& (#[trigger] replaced.children[k]).scope == replaced.scope + 1
            &&& slt_wf(replaced.children[k])
        } by {
            if k < t.children.len() - 1 {
                assert(t.children[k].scope == t.scope + 1);
            }
        }
        lemma_same_entries_wf(t, replaced);
    }
}

/// A table with the entries of a table in order, whose nested scopes are in
/// order and one deeper, is in order.
pub proof fn lemma_same_entries_wf(t: SltView, u: SltView)
    requires
        t.wf(),
        u.variables == t.variables,
        u.funcs == t.funcs,
        u.offset == t.offset,
        u.scope == t.scope,
        forall|k: int|
            0 <= k < u.children.len() ==> {
                &&& (#[trigger] u.children[k]).scope == u.scope + 1
                &&& slt_wf(u.children[k])
            },
    ensures
        u.wf(),
{
    assert forall|a: int, b: int| 0 <= a < b < u.variables.len() implies (
    #[trigger] u.variables[a]).0.id != (#[trigger] u.variables[b]).0.id by {
        assert(t.variables[a].0.id != t.variables[b].0.id);
    }
    assert forall|a: int, b: int| 0 <= a < b < u.variables.len() implies (
    #[trigger] u.variables[a]).0.offset != (#[trigger] u.variables[b]).0.offset by {
        assert(t.variables[a].0.offset != t.variables[b].0.offset);
    }
    assert forall|a: int| 0 <= a < u.variables.len() implies {
        &&& (#[trigger] u.variables[a]).0.scope == u.scope
        &&& 1 <= u.variables[a].0.offset <= u.offset
    } by {
        assert(t.variables[a].0.scope == t.scope);
    }
    assert forall|a: int, b: int| 0 <= a < b < u.funcs.len() implies (#[trigger] u.funcs[a]).0.id != (
    #[trigger] u.funcs[b]).0.id by {
        assert(t.funcs[a].0.id != t.funcs[b].0.id);
    }
}

/// The number of frames between the use of a variable, at depth
/// `use_scope`, and its declaration, at depth `decl_scope`.
pub open spec fn spec_distance(use_scope: u32, decl_scope: u32) -> int {
    use_scope - decl_scope
}

/// The number of frames between the use of a variable, at depth
/// `use_scope`, and its declaration, at depth `decl_scope`.
pub fn distance(use_scope: u32, decl_scope: u32) -> (d: u32)
    requires
        decl_scope <= use_scope,
    ensures
        d == spec_distance(use_scope, decl_scope),
{
    use_scope - decl_scope
}

impl Variable {
    /// A variable that is declared without a value, not yet placed in a
    /// table.
    pub fn new(id: Vec<u8>, ty: Type) -> (v: Variable)
        ensures
            v@ == (VariableView { id: id@, ty, value: ValueView::Unset, offset: 0, scope: 0 }),
    {
        Variable { id, ty, offset: 0, value: Value::Unset, scope: 0 }
    }

    /// A variable that is declared with a value, not yet placed in a table.
    pub fn with_value(id: Vec<u8>, ty: Type, value: Value) -> (v: Variable)
        ensures
            v@ == (VariableView { id: id@, ty, value: value@, offset: 0, scope: 0 }),
    {
        Variable { id, ty, offset: 0, value, scope: 0 }
    }
}

impl Fn {
    /// The signature of a function that returns nothing.
    pub fn new(id: Vec<u8>, args: Vec<Type>, variadic: Option<usize>) -> (f: Fn)
        ensures
            f@ == (FnView { id: id@, ty: Type::Void, args: args@, variadic }),
    {
        Fn { id, ty: Type::Void, args, variadic }
    }

    /// The signature of a function of the program.
    pub fn from_fn(value: &crate::ir::Fn) -> (f: Fn)
        ensures
            f@ == (FnView {
                id: value@.id,
                ty: Type::Void,
                args: value@.args.map_values(|a: (Seq<u8>, Type)| a.1),
                variadic: value@.variadic,
            }),
    {
        let mut args: Vec<Type> = Vec::new();
        let mut i: usize = 0;
        while i < value.args.len()
            invariant
                i <= value.args@.len(),
                args@ == value@.args.subrange(0, i as int).map_values(|a: (Seq<u8>, Type)| a.1),
            decreases value.args@.len() - i,
        {
            args.push(value.args[i].1);
            assert(args@ =~= value@.args.subrange(0, i + 1).map_values(
                |a: (Seq<u8>, Type)| a.1,
            ));
            i += 1;
        }
        assert(value@.args.subrange(0, i as int) =~= value@.args);
        Fn { id: value.id.clone(), ty: Type::Void, args, variadic: value.variadic }
    }

    /// The signature of an external function.
    pub fn from_extrn(value: &crate::ir::Extrn) -> (f: Fn)
        ensures
            f@ == (FnView {
                id: value@.id,
                ty: Type::Void,
                args: value@.args,
                variadic: value@.variadic,
            }),
    {
        Fn {
            id: value.id.clone(),
            ty: Type::Void,
            args: value.args.clone(),
            variadic: value.variadic,
        }
    }
}

impl SymbolLookupTable {
    /// The table is in order.
    pub open spec fn wf(&self) -> bool {
        self@.wf()
    }

    /// The scope that was nested last.
    pub fn last_children_mut(&mut self) -> (r: Option<&mut SymbolLookupTable>)
        ensures
            match r {
                None => old(self).children@.len() == 0 && *final(self) == *old(self),
                Some(c) => {
                    &&& old(self).children@.len() > 0
                    &&& *c == old(self).children@.last()
                    &&& final(self).children@ == old(self).children@.update(
                        old(self).children@.len() - 1,
                        *final(c),
                    )
                    &&& final(self).variables == old(self).variables
                    &&& final(self).funcs == old(self).funcs
                    &&& final(self).offset == old(self).offset
                    &&& final(self).region == old(self).region
                    &&& final(self).scope == old(self).scope
                },
            },
    {
        let n = self.children.len();
        if n == 0 {
            None
        } else {
            Some(&mut self.children[n - 1])
        }
    }

    /// The place of the variable named `name` among the variables.
    fn find_variable_index(&self, name: &[u8]) -> (r: Option<usize>)
        ensures
            match r {
                Some(i) => variable_index(self@.variables, name@, 0) == Some(i as int) && i
                    < self.variables@.len(),
                None => variable_index(self@.variables, name@, 0) is None,
            },
    {
        let mut i: usize = 0;
        while i < self.variables.len()
            invariant
                i <= self.variables@.len(),
                variable_index(self@.variables, name@, 0) == variable_index(
                    self@.variables,
                    name@,
                    i as int,
                ),
            decreases self.variables@.len() - i,
        {
            if bytes_eq(self.variables[i].0.id.as_slice(), name) {
                return Some(i);
            }
            i += 1;
        }
        None
    }

    /// The place of the function named `name` among the functions.
    fn find_function_index(&self, name: &[u8]) -> (r: Option<usize>)
        ensures
            match r {
                Some(i) => function_index(self@.funcs, name@, 0) == Some(i as int) && i
                    < self.funcs@.len(),
                None => function_index(self@.funcs, name@, 0) is None,
            },
    {
        let mut i: usize = 0;
        while i < self.funcs.len()
            invariant
                i <= self.funcs@.len(),
                function_index(self@.funcs, name@, 0) == function_index(
                    self@.funcs,
                    name@,
                    i as int,
                ),
            decreases self.funcs@.len() - i,
        {
            if bytes_eq(self.funcs[i].0.id.as_slice(), name) {
                return Some(i);
            }
            i += 1;
        }
        None
    }

    /// Adds a new variable to the table, in the next slot. Where a variable
    /// of the same name has been declared in this scope before, the new
    /// declaration takes its place and the earlier entry is returned.
    pub fn add_variable(&mut self, var: Variable, span: Span) -> (r: Option<(Variable, Span)>)
        requires
            old(self).offset < i32::MAX,
        ensures
            final(self)@ == old(self)@.add_variable(var@, span),
            match r {
                Some(e) => old(self)@.variable_entry(var@.id) == Some((e.0@, e.1)),
                None => old(self)@.variable_entry(var@.id) is None,
            },
            old(self).wf() ==> final(self).wf(),
    {
        self.offset += 1;
        let mut var = var;
        var.offset = self.offset;
        var.scope = self.scope;
        let found = self.find_variable_index(var.id.as_slice());
        let ghost entry = (var@, span);
        let r = match found {
            Some(i) => {
                self.variables.push((var, span));
                let previous = self.variables.swap_remove(i);
                assert(variables_view(self.variables@) =~= old(self)@.variables.update(
                    i as int,
                    entry,
                ));
                Some(previous)
            },
            None => {
                self.variables.push((var, span));
                assert(variables_view(self.variables@) =~= old(self)@.variables.push(entry));
                None
            },
        };
        proof {
            if old(self).wf() {
                lemma_add_variable_wf(old(self)@, var@, span);
            }
        }
        r
    }

    /// Adds a function to the table. Where a function of the same name has
    /// been declared in this scope before, the new declaration takes its
    /// place and the earlier entry is returned.
    pub fn add_function(&mut self, func: Fn, span: Span) -> (r: Option<(Fn, Span)>)
        ensures
            final(self)@ == old(self)@.add_function(func@, span),
            match r {
                Some(e) => old(self)@.function_entry(func@.id) == Some((e.0@, e.1)),
                None => old(self)@.function_entry(func@.id) is None,
            },
            old(self).wf() ==> final(self).wf(),
    {
        let found = self.find_function_index(func.id.as_slice());
        let ghost entry = (func@, span);
        let r = match found {
            Some(i) => {
                self.funcs.push((func, span));
                let previous = self.funcs.swap_remove(i);
                assert(funcs_view(self.funcs@) =~= old(self)@.funcs.update(i as int, entry));
                Some(previous)
            },
            None => {
                self.funcs.push((func, span));
                assert(funcs_view(self.funcs@) =~= old(self)@.funcs.push(entry));
                None
            },
        };
        proof {
            if old(self).wf() {
                lemma_add_function_wf(old(self)@, func@, span);
            }
        }
        r
    }

    /// The variable named `name` in this scope.
    pub fn get_variable(&self, name: &[u8]) -> (r: Option<&Variable>)
        ensures
            match r {
                Some(v) => self@.get_variable(name@) == Some(v@),
                None => self@.get_variable(name@) is None,
            },
    {
        match self.find_variable_index(name) {
            Some(i) => Some(&self.variables[i].0),
            None => None,
        }
    }

    /// The function named `name` in this scope.
    pub fn get_function(&self, name: &[u8]) -> (r: Option<&Fn>)
        ensures
            match r {
                Some(f) => self@.get_function(name@) == Some(f@),
                None => self@.get_function(name@) is None,
            },
    {
        match self.find_function_index(name) {
            Some(i) => Some(&self.funcs[i].0),
            None => None,
        }
    }
}

/// Hands out the tables of new scopes, each with a number of its own.
pub struct Builder {
    pub region_count: u32,
}

impl Builder {
    pub fn new() -> (b: Builder)
        ensures
            b.region_count == 0,
    {
        Builder { region_count: 0 }
    }

    /// The empty table of a new root scope.
    pub fn region(&mut self) -> (t: SymbolLookupTable)
        requires
            old(self).region_count < u32::MAX,
        ensures
            final(self).region_count == old(self).region_count + 1,
            t@ == SltView::empty(old(self).region_count, 0),
            t.wf(),
    {
        let new = SymbolLookupTable {
            variables: Vec::new(),
            funcs: Vec::new(),
            offset: 0,
            region: self.region_count,
            scope: 0,
            children: Vec::new(),
        };
        self.region_count += 1;
        assert(new@.variables =~= Seq::empty());
        assert(new@.funcs =~= Seq::empty());
        new
    }

    /// Nests a new, empty scope in `parent`, behind the scopes that it
    /// holds.
    pub fn new_region(&mut self, parent: &mut SymbolLookupTable)
        requires
            old(self).region_count < u32::MAX,
            old(parent).scope < u32::MAX,
        ensures
            final(self).region_count == old(self).region_count + 1,
            final(parent)@ == old(parent)@.add_child(old(self).region_count),
            old(parent).wf() ==> final(parent).wf(),
    {
        let new = SymbolLookupTable {
            variables: Vec::new(),
            funcs: Vec::new(),
            offset: 0,
            region: self.region_count,
            scope: parent.scope + 1,
            children: Vec::new(),
        };
        assert(new@.variables =~= Seq::empty());
        assert(new@.funcs =~= Seq::empty());
        proof {
            lemma_slts_view_push(parent.children@, new);
            if old(parent).wf() {
                lemma_children_wf(old(parent)@, new@);
            }
        }

        parent.children.push(new);

        self.region_count += 1;
    }
}


/// Takes the scope that was nested last out of `slt`.
pub(crate) fn take_last_child(slt: &mut SymbolLookupTable, Ghost(before): Ghost<SltView>, Ghost(region): Ghost<u32>) -> (child:
    SymbolLookupTable)
    requires
        old(slt)@ == before.add_child(region),
        before.scope < u32::MAX,
    ensures
        child@ == SltView::empty(region, (before.scope + 1) as u32),
        child.wf(),
        final(slt)@ == before,
        final(slt).scope == old(slt).scope,
{
    proof {
        lemma_slts_view(slt.children@);
    }
    let ghost nested = slt.children@;
    let ghost with_child = slt@;
    assert(with_child.children == slts_view(nested));
    let child = match slt.children.pop() {
        Some(child) => child,
        None => SymbolLookupTable {
            variables: Vec::new(),
            funcs: Vec::new(),
            offset: 0,
            region: 0,
            scope: 0,
            children: Vec::new(),
        },
    };
    proof {
        assert(slt.children@ =~= nested.drop_last());
        assert(child == nested.last());
        assert(slts_view(nested) == slts_view(nested.drop_last()).push(nested.last()@));
        assert(slts_view(nested.drop_last()) =~= with_child.children.drop_last());
        assert(slts_view(slt.children@) =~= before.children);
        assert(child@ == with_child.children.last());
        lemma_empty_wf(region, (before.scope + 1) as u32);
    }
    child
}

/// Nests `child` in `slt` behind the other scopes.
pub(crate) fn put_child(slt: &mut SymbolLookupTable, child: SymbolLookupTable)
    ensures
        final(slt)@ == (SltView { children: old(slt)@.children.push(child@), ..old(slt)@ }),
        old(slt).wf() && child.wf() && child.scope == old(slt).scope + 1 ==> final(slt).wf(),
{
    proof {
        lemma_slts_view_push(slt.children@, child);
        if old(slt).wf() && child.wf() && child.scope == old(slt).scope + 1 {
            lemma_children_wf(old(slt)@, child@);
        }
    }
    slt.children.push(child);
}

/// A table seen from inside: the scope itself and, through `parent`, the
/// scopes around it.
pub struct NavigableSlt<'a> {
    pub slt: &'a SymbolLookupTable,
    pub parent: Option<&'a NavigableSlt<'a>>,
}

/// The scopes that are visible from a table, from the innermost outwards.
pub open spec fn nav_view(n: NavigableSlt) -> Seq<SltView>
    decreases n,
{
    match n.parent {
        None => seq![n.slt@],
        Some(p) => seq![n.slt@] + nav_view(*p),
    }
}

impl<'a> View for NavigableSlt<'a> {
    type V = Seq<SltView>;

    open spec fn view(&self) -> Seq<SltView> {
        nav_view(*self)
    }
}

/// The variable named `id` in the innermost of the scopes `chain` that
/// declares one.
pub open spec fn find_variable(chain: Seq<SltView>, id: Seq<u8>) -> Option<VariableView>
    decreases chain.len(),
{
    if chain.len() == 0 {
        None
    } else {
        match chain[0].get_variable(id) {
            Some(v) => Some(v),
            None => find_variable(chain.drop_first(), id),
        }
    }
}

/// The function named `id` in the innermost of the scopes `chain` that
/// declares one.
pub open spec fn find_func(chain: Seq<SltView>, id: Seq<u8>) -> Option<FnView>
    decreases chain.len(),
{
    if chain.len() == 0 {
        None
    } else {
        match chain[0].get_function(id) {
            Some(f) => Some(f),
            None => find_func(chain.drop_first(), id),
        }
    }
}

/// Every scope of the chain is in order and one deeper than the scope
/// around it.
pub open spec fn chain_wf(chain: Seq<SltView>) -> bool {
    &&& chain.len() > 0
    &&& forall|i: int| 0 <= i < chain.len() ==> (#[trigger] chain[i]).wf()
    &&& forall|i: int|
        0 <= i < chain.len() - 1 ==> (#[trigger] chain[i]).scope == chain[i + 1].scope + 1
}

/// A variable that is found from a scope is named as asked, has a slot, and
/// was declared at the depth of that scope or above it.
pub proof fn lemma_find_variable(chain: Seq<SltView>, id: Seq<u8>)
    requires
        chain_wf(chain),
    ensures
        match find_variable(chain, id) {
            Some(v) => v.id == id && v.scope <= chain[0].scope && v.offset >= 1,
            None => true,
        },
    decreases chain.len(),
{
    lemma_variable_index(chain[0].variables, id, 0);
    match chain[0].get_variable(id) {
        Some(v) => {
            let i = variable_index(chain[0].variables, id, 0)->0;
            assert(chain[0].variables[i].0.scope == chain[0].scope);
        },
        None => {
            let rest = chain.drop_first();
            if rest.len() > 0 {
                assert forall|i: int| 0 <= i < rest.len() implies (#[trigger] rest[i]).wf() by {
                    assert(chain[i + 1].wf());
                }
                assert forall|i: int| 0 <= i < rest.len() - 1 implies (#[trigger] rest[i]).scope
                    == rest[i + 1].scope + 1 by {
                    assert(chain[i + 1].scope == chain[i + 2].scope + 1);
                }
                lemma_find_variable(rest, id);
                assert(chain[0].scope == chain[1].scope + 1);
            }
        },
    }
}

/// Shadowing. Seen from a scope that declares `id`, the name resolves to
/// the declaration of that scope, whatever the scopes around it declare;
/// seen from a scope that does not declare it, and so from every scope
/// outside the one that does, it resolves as it does in the scopes around.
pub proof fn lemma_shadowing(inner: SltView, outer: Seq<SltView>, id: Seq<u8>)
    ensures
        inner.get_variable(id) is Some ==> find_variable(seq![inner] + outer, id)
            == inner.get_variable(id),
        inner.get_variable(id) is None ==> find_variable(seq![inner] + outer, id) == find_variable(
            outer,
            id,
        ),
{
    let chain = seq![inner] + outer;
    assert(chain[0] == inner);
    assert(chain.drop_first() =~= outer);
}

/// A second declaration of a name in one scope. The first declaration gets
/// the next slot and the second the slot after it; the second declaration
/// finds the entry of the first, which is what tells the caller of the
/// duplicate; afterwards the name stands for the second declaration, and
/// the scope holds as many names as before it.
pub proof fn lemma_duplicate_declaration(
    t: SltView,
    first: VariableView,
    first_span: Span,
    second: VariableView,
    second_span: Span,
)
    requires
        t.wf(),
        t.offset < i32::MAX - 1,
        first.id == second.id,
    ensures
        ({
            let t1 = t.add_variable(first, first_span);
            let t2 = t1.add_variable(second, second_span);
            &&& t1.variable_entry(second.id) == Some((t.placed(first), first_span))
            &&& t.placed(first).offset == t.offset + 1
            &&& t2.get_variable(second.id) == Some(t1.placed(second))
            &&& t1.placed(second).offset == t.offset + 2
            &&& t2.variables.len() == t1.variables.len()
            &&& t2.wf()
        }),
{
    let t1 = t.add_variable(first, first_span);
    lemma_add_variable_wf(t, first, first_span);
    lemma_add_variable_wf(t1, second, second_span);
    lemma_variable_index(t.variables, first.id, 0);
    lemma_variable_index(t1.variables, first.id, 0);
}

impl<'a> NavigableSlt<'a> {
    /// The table seen from its root: nothing is around it.
    pub fn root(slt: &'a SymbolLookupTable) -> (n: NavigableSlt<'a>)
        ensures
            n@ == seq![slt@],
            n.slt == slt,
            n.parent is None,
    {
        NavigableSlt { slt, parent: None }
    }

    /// Every scope that is visible from here is in order and one deeper
    /// than the scope around it.
    pub open spec fn wf(&self) -> bool {
        chain_wf(self@)
    }

    /// The scopes nested in this one, in the order of their declaration.
    pub fn childs(&'a self) -> (it: ChildIterator<'a>)
        ensures
            it.parent == self,
            it.pos == 0,
    {
        ChildIterator { parent: self, pos: 0 }
    }

    /// The variable named `name` in the innermost scope that declares one.
    pub fn find_variable(&self, name: &[u8]) -> (r: Option<&Variable>)
        ensures
            match r {
                Some(v) => find_variable(self@, name@) == Some(v@),
                None => find_variable(self@, name@) is None,
            },
        decreases self,
    {
        assert(self@.len() > 0 && self@[0] == self.slt@);
        match self.slt.get_variable(name) {
            Some(var) => {
                assert(find_variable(self@, name@) == Some(var@));
                Some(var)
            },
            None => match self.parent {
                Some(p) => {
                    assert(self@.drop_first() =~= p@);
                    let r = p.find_variable(name);
                    assert(find_variable(self@, name@) == find_variable(p@, name@));
                    r
                },
                None => {
                    assert(self@.drop_first() =~= Seq::<SltView>::empty());
                    assert(find_variable(self@.drop_first(), name@) is None);
                    None
                },
            },
        }
    }

    /// The function named `name` in the innermost scope that declares one.
    pub fn find_func(&self, name: &[u8]) -> (r: Option<&Fn>)
        ensures
            match r {
                Some(f) => find_func(self@, name@) == Some(f@),
                None => find_func(self@, name@) is None,
            },
        decreases self,
    {
        assert(self@.len() > 0 && self@[0] == self.slt@);
        match self.slt.get_function(name) {
            Some(var) => {
                assert(find_func(self@, name@) == Some(var@));
                Some(var)
            },
            None => match self.parent {
                Some(p) => {
                    assert(self@.drop_first() =~= p@);
                    let r = p.find_func(name);
                    assert(find_func(self@, name@) == find_func(p@, name@));
                    r
                },
                None => {
                    assert(self@.drop_first() =~= Seq::<SltView>::empty());
                    assert(find_func(self@.drop_first(), name@) is None);
                    None
                },
            },
        }
    }
}

/// Walks the scopes nested in a scope.
pub struct ChildIterator<'a> {
    pub parent: &'a NavigableSlt<'a>,
    /// the place of the scope that comes next
    pub pos: usize,
}

impl<'a> ChildIterator<'a> {
    /// The next nested scope, seen from inside.
    pub fn next(&mut self) -> (r: Option<NavigableSlt<'a>>)
        ensures
            final(self).parent == old(self).parent,
            match r {
                Some(n) => {
                    &&& old(self).pos < old(self).parent.slt.children@.len()
                    &&& final(self).pos == old(self).pos + 1
                    &&& n.slt == &old(self).parent.slt.children@[old(self).pos as int]
                    &&& n.parent == Some(old(self).parent)
                    &&& n@ == seq![old(self).parent.slt@.children[old(self).pos as int]] + old(
                        self,
                    ).parent@
                    &&& old(self).parent.wf() ==> n.wf()
                },
                None => {
                    &&& old(self).pos >= old(self).parent.slt.children@.len()
                    &&& final(self).pos == old(self).pos
                },
            },
    {
        if self.pos < self.parent.slt.children.len() {
            let c = &self.parent.slt.children[self.pos];
            self.pos += 1;
            let n = NavigableSlt { slt: c, parent: Some(self.parent) };
            proof {
                lemma_slts_view(self.parent.slt.children@);
                if self.parent.wf() {
                    lemma_child_chain_wf(self.parent@, old(self).pos as int);
                }
            }
            Some(n)
        } else {
            None
        }
    }
}

/// The chain of a nested scope is in order where the chain of the scope
/// around it is.
pub proof fn lemma_child_chain_wf(chain: Seq<SltView>, k: int)
    requires
        chain_wf(chain),
        0 <= k < chain[0].children.len(),
    ensures
        chain_wf(seq![chain[0].children[k]] + chain),
{
    let c = seq![chain[0].children[k]] + chain;
    assert(chain[0].wf());
    assert(chain[0].children[k].scope == chain[0].scope + 1);
    assert forall|i: int| 0 <= i < c.len() implies (#[trigger] c[i]).wf() by {
        if i > 0 {
            assert(c[i] == chain[i - 1]);
        }
    }
    assert forall|i: int| 0 <= i < c.len() - 1 implies (#[trigger] c[i]).scope == c[i + 1].scope
        + 1 by {
        if i > 0 {
            assert(c[i] == chain[i - 1]);
            assert(c[i + 1] == chain[i]);
        }
    }
}


/// A variable that is declared without a value, not yet placed in a table.
impl From<(Vec<u8>, Type)> for Variable {
    fn from(value: (Vec<u8>, Type)) -> (v: Variable) {
        Variable { id: value.0, ty: value.1, value: Value::Unset, offset: 0, scope: 0 }
    }
}

impl vstd::std_specs::convert::FromSpecImpl<(Vec<u8>, Type)> for Variable {
    open spec fn obeys_from_spec() -> bool {
        true
    }

    open spec fn from_spec(value: (Vec<u8>, Type)) -> Variable {
        Variable { id: value.0, ty: value.1, value: Value::Unset, offset: 0, scope: 0 }
    }
}

/// A variable that is declared with a string, not yet placed in a table.
impl From<(Vec<u8>, Type, Vec<u8>)> for Variable {
    fn from(value: (Vec<u8>, Type, Vec<u8>)) -> (v: Variable) {
        Variable { id: value.0, ty: value.1, value: Value::Str(value.2), offset: 0, scope: 0 }
    }
}

impl vstd::std_specs::convert::FromSpecImpl<(Vec<u8>, Type, Vec<u8>)> for Variable {
    open spec fn obeys_from_spec() -> bool {
        true
    }

    open spec fn from_spec(value: (Vec<u8>, Type, Vec<u8>)) -> Variable {
        Variable { id: value.0, ty: value.1, value: Value::Str(value.2), offset: 0, scope: 0 }
    }
}

/// A variable that is declared with a boolean, not yet placed in a table.
impl From<(Vec<u8>, Type, bool)> for Variable {
    fn from(value: (Vec<u8>, Type, bool)) -> (v: Variable) {
        Variable { id: value.0, ty: value.1, value: Value::Bool(value.2), offset: 0, scope: 0 }
    }
}

impl vstd::std_specs::convert::FromSpecImpl<(Vec<u8>, Type, bool)> for Variable {
    open spec fn obeys_from_spec() -> bool {
        true
    }

    open spec fn from_spec(value: (Vec<u8>, Type, bool)) -> Variable {
        Variable { id: value.0, ty: value.1, value: Value::Bool(value.2), offset: 0, scope: 0 }
    }
}

/// A variable that is declared with an integer, not yet placed in a table.
impl From<(Vec<u8>, Type, i64)> for Variable {
    fn from(value: (Vec<u8>, Type, i64)) -> (v: Variable) {
        Variable { id: value.0, ty: value.1, value: Value::Int(value.2), offset: 0, scope: 0 }
    }
}

impl vstd::std_specs::convert::FromSpecImpl<(Vec<u8>, Type, i64)> for Variable {
    open spec fn obeys_from_spec() -> bool {
        true
    }

    open spec fn from_spec(value: (Vec<u8>, Type, i64)) -> Variable {
        Variable { id: value.0, ty: value.1, value: Value::Int(value.2), offset: 0, scope: 0 }
    }
}

/// The table seen from its root: nothing is around it.
impl<'a> From<&'a SymbolLookupTable> for NavigableSlt<'a> {
    fn from(value: &'a SymbolLookupTable) -> (n: NavigableSlt<'a>) {
        NavigableSlt { slt: value, parent: None }
    }
}

impl<'a> vstd::std_specs::convert::FromSpecImpl<&'a SymbolLookupTable> for NavigableSlt<'a> {
    open spec fn obeys_from_spec() -> bool {
        true
    }

    open spec fn from_spec(value: &'a SymbolLookupTable) -> NavigableSlt<'a> {
        NavigableSlt { slt: value, parent: None }
    }
}

} // verus!
