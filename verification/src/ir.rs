//! Intermediate representation of a program: functions and external
//! functions, statements and expressions. Names and string literals are
//! byte strings taken from the source.

use vstd::prelude::*;
use vstd::string::*;

use crate::lexer::token::TokenKind;
use crate::text::bytes_eq;

verus! {

pub struct Program {
    pub func: Vec<Fn>,
    pub extrn: Vec<Extrn>,
}

/// A function of another library, called by the convention of the target.
pub struct Extrn {
    pub id: Vec<u8>,
    /// Tells if the function has a variadic parameter and if so the value of
    /// variadic is the number of fixed parameters
    pub variadic: Option<usize>,
    pub args: Vec<Type>,
}

pub struct Fn {
    pub id: Vec<u8>,
    pub stmts: Vec<Stmt>,
    /// Tells if the function has a variadic parameter and if so the value of
    /// variadic is the number of fixed parameters
    pub variadic: Option<usize>,
    pub args: Vec<(Vec<u8>, Type)>,
}

#[derive(Debug, Clone, Copy, PartialEq, Eq, Structural)]
pub enum Op {
    Eq,
    Add,
    Sub,
    Mul,
    Div,
    Mod,
}

#[derive(Debug, Clone, Copy, PartialEq, Eq, Structural)]
pub enum Type {
    Ptr(InnerType),
    Val(InnerType),
    Void,
}

#[derive(Debug, Clone, Copy, PartialEq, Eq, Structural)]
pub enum InnerType {
    Int,
    Str,
    Bool,
}

pub enum Stmt {
    Let { id: Vec<u8>, value: Expr },
    FnCall { id: Vec<u8>, args: Vec<Expr> },
    Assign { id: Vec<u8>, ops: Vec<Unop> },
}

/// One step of an assignment: an operator and its right operand.
pub struct Unop {
    pub value: Expr,
    pub op: Op,
}

pub enum Expr {
    FnCall { id: Vec<u8>, args: Vec<Expr> },
    Lit(Lit),
    ID(Vec<u8>),
}

pub enum Lit {
    Int(i64),
    Str(Vec<u8>),
    Bool(bool),
}

// ---------------------------------------------------------------------------
// The mathematical values that these types stand for.
// ---------------------------------------------------------------------------
pub enum LitView {
    Int(i64),
    Str(Seq<u8>),
    Bool(bool),
}

pub enum ExprView {
    FnCall { id: Seq<u8>, args: Seq<ExprView> },
    Lit(LitView),
    ID(Seq<u8>),
}

pub struct UnopView {
    pub value: ExprView,
    pub op: Op,
}

pub enum StmtView {
    Let { id: Seq<u8>, value: ExprView },
    FnCall { id: Seq<u8>, args: Seq<ExprView> },
    Assign { id: Seq<u8>, ops: Seq<UnopView> },
}

pub struct FnView {
    pub id: Seq<u8>,
    pub stmts: Seq<StmtView>,
    pub variadic: Option<usize>,
    pub args: Seq<(Seq<u8>, Type)>,
}

pub struct ExtrnView {
    pub id: Seq<u8>,
    pub variadic: Option<usize>,
    pub args: Seq<Type>,
}

pub struct ProgramView {
    pub func: Seq<FnView>,
    pub extrn: Seq<ExtrnView>,
}

impl View for Lit {
    type V = LitView;

    open spec fn view(&self) -> LitView {
        match self {
            Lit::Int(i) => LitView::Int(*i),
            Lit::Str(s) => LitView::Str(s@),
            Lit::Bool(b) => LitView::Bool(*b),
        }
    }
}

/// The value of an expression.
pub open spec fn expr_view(e: Expr) -> ExprView
    decreases e,
{
    match e {
        Expr::FnCall { id, args } => ExprView::FnCall { id: id@, args: exprs_view(args@) },
        Expr::Lit(lit) => ExprView::Lit(lit@),
        Expr::ID(id) => ExprView::ID(id@),
    }
}

/// The values of a list of expressions, one by one.
pub open spec fn exprs_view(es: Seq<Expr>) -> Seq<ExprView>
    decreases es,
{
    if es.len() == 0 {
        Seq::empty()
    } else {
        exprs_view(es.drop_last()).push(expr_view(es.last()))
    }
}

/// The values of a list of expressions are the values of its items.
pub proof fn lemma_exprs_view(es: Seq<Expr>)
    ensures
        exprs_view(es).len() == es.len(),
        forall|i: int| 0 <= i < es.len() ==> #[trigger] exprs_view(es)[i] == es[i]@,
    decreases es.len(),
{
    if es.len() > 0 {
        lemma_exprs_view(es.drop_last());
    }
}

impl View for Expr {
    type V = ExprView;

    open spec fn view(&self) -> ExprView {
        expr_view(*self)
    }
}

impl View for Unop {
    type V = UnopView;

    open spec fn view(&self) -> UnopView {
        UnopView { value: self.value@, op: self.op }
    }
}

impl View for Stmt {
    type V = StmtView;

    open spec fn view(&self) -> StmtView {
        match self {
            Stmt::Let { id, value } => StmtView::Let { id: id@, value: value@ },
            Stmt::FnCall { id, args } => StmtView::FnCall { id: id@, args: exprs_view(args@) },
            Stmt::Assign { id, ops } => StmtView::Assign {
                id: id@,
                ops: ops@.map_values(|u: Unop| u@),
            },
        }
    }
}

impl View for Fn {
    type V = FnView;

    open spec fn view(&self) -> FnView {
        FnView {
            id: self.id@,
            stmts: self.stmts@.map_values(|s: Stmt| s@),
            variadic: self.variadic,
            args: self.args@.map_values(|a: (Vec<u8>, Type)| (a.0@, a.1)),
        }
    }
}

impl View for Extrn {
    type V = ExtrnView;

    open spec fn view(&self) -> ExtrnView {
        ExtrnView { id: self.id@, variadic: self.variadic, args: self.args@ }
    }
}

impl View for Program {
    type V = ProgramView;

    open spec fn view(&self) -> ProgramView {
        ProgramView {
            func: self.func@.map_values(|f: Fn| f@),
            extrn: self.extrn@.map_values(|e: Extrn| e@),
        }
    }
}

/// The place of the first function named `id`, from `from` on.
pub open spec fn first_fn(funcs: Seq<FnView>, id: Seq<u8>, from: int) -> Option<int>
    decreases funcs.len() - from,
{
    if from < 0 || from >= funcs.len() {
        None
    } else if funcs[from].id == id {
        Some(from)
    } else {
        first_fn(funcs, id, from + 1)
    }
}

/// The place of the first external function named `id`, from `from` on.
pub open spec fn first_extrn(extrns: Seq<ExtrnView>, id: Seq<u8>, from: int) -> Option<int>
    decreases extrns.len() - from,
{
    if from < 0 || from >= extrns.len() {
        None
    } else if extrns[from].id == id {
        Some(from)
    } else {
        first_extrn(extrns, id, from + 1)
    }
}

impl ProgramView {
    /// The number of fixed parameters of the variadic function named `id`:
    /// that of the first function of this name, else that of the first
    /// external function of this name; `None` where `id` names nothing or
    /// what it names is not variadic.
    pub open spec fn get_fn_variadic(self, id: Seq<u8>) -> Option<usize> {
        match first_fn(self.func, id, 0) {
            Some(i) => self.func[i].variadic,
            None => match first_extrn(self.extrn, id, 0) {
                Some(i) => self.extrn[i].variadic,
                None => None,
            },
        }
    }
}

impl Program {
    /// A program without functions.
    pub fn new() -> (p: Program)
        ensures
            p@ == (ProgramView { func: Seq::empty(), extrn: Seq::empty() }),
    {
        let p = Program { func: Vec::new(), extrn: Vec::new() };
        assert(p@.func =~= Seq::empty());
        assert(p@.extrn =~= Seq::empty());
        p
    }

    /// The number of fixed parameters of the variadic function named `id`.
    pub fn get_fn_variadic(&self, id: &[u8]) -> (r: Option<usize>)
        ensures
            r == self@.get_fn_variadic(id@),
    {
        let mut i: usize = 0;
        while i < self.func.len()
            invariant
                i <= self.func@.len(),
                first_fn(self@.func, id@, 0) == first_fn(self@.func, id@, i as int),
            decreases self.func@.len() - i,
        {
            if bytes_eq(self.func[i].id.as_slice(), id) {
                return self.func[i].variadic;
            }
            i += 1;
        }
        let mut j: usize = 0;
        while j < self.extrn.len()
            invariant
                j <= self.extrn@.len(),
                first_fn(self@.func, id@, 0) is None,
                first_extrn(self@.extrn, id@, 0) == first_extrn(self@.extrn, id@, j as int),
            decreases self.extrn@.len() - j,
        {
            if bytes_eq(self.extrn[j].id.as_slice(), id) {
                return self.extrn[j].variadic;
            }
            j += 1;
        }
        None
    }
}

impl Op {
    /// The operator that a token of kind `kind` stands for.
    pub open spec fn spec_try_from(kind: TokenKind) -> Option<Op> {
        match kind {
            TokenKind::Plus => Some(Op::Add),
            TokenKind::Eq => Some(Op::Eq),
            TokenKind::Minus => Some(Op::Sub),
            TokenKind::Div => Some(Op::Div),
            TokenKind::Mul => Some(Op::Mul),
            TokenKind::Mod => Some(Op::Mod),
            _ => None,
        }
    }

    /// The operator that a token of kind `kind` stands for, if it is one.
    pub fn try_from(kind: TokenKind) -> (r: Option<Op>)
        ensures
            r == Op::spec_try_from(kind),
    {
        match kind {
            TokenKind::Plus => Some(Op::Add),
            TokenKind::Eq => Some(Op::Eq),
            TokenKind::Minus => Some(Op::Sub),
            TokenKind::Div => Some(Op::Div),
            TokenKind::Mul => Some(Op::Mul),
            TokenKind::Mod => Some(Op::Mod),
            _ => None,
        }
    }
}

impl InnerType {
    /// The name of the type in the language.
    pub open spec fn name(self) -> Seq<char> {
        match self {
            InnerType::Int => "Credit"@,
            InnerType::Str => "Holotext"@,
            InnerType::Bool => "Signal"@,
        }
    }

    pub fn as_str(&self) -> (s: &'static str)
        ensures
            s@ == self.name(),
    {
        match self {
            InnerType::Int => "Credit",
            InnerType::Str => "Holotext",
            InnerType::Bool => "Signal",
        }
    }

    pub fn to_string(&self) -> (s: String)
        ensures
            s@ == self.name(),
    {
        self.as_str().to_owned()
    }
}

impl Type {
    /// How diagnostics show the type.
    pub open spec fn name(self) -> Seq<char> {
        match self {
            Type::Ptr(inner) => "pointer("@ + inner.name() + ")"@,
            Type::Val(inner) => "value("@ + inner.name() + ")"@,
            Type::Void => "void"@,
        }
    }

    pub fn to_string(&self) -> (s: String)
        ensures
            s@ == self.name(),
    {
        match self {
            Type::Ptr(inner) => {
                let mut s = "pointer(".to_owned();
                s.append(inner.as_str());
                s.append(")");
                s
            },
            Type::Val(inner) => {
                let mut s = "value(".to_owned();
                s.append(inner.as_str());
                s.append(")");
                s
            },
            Type::Void => "void".to_owned(),
        }
    }
}

} // verus!
