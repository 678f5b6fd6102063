use vstd::prelude::*;

verus! {

/// Binary arithmetic operators.
#[derive(Clone, Copy, Debug, PartialEq, Eq, Structural)]
pub enum BinOpRef {
    Add,
    Sub,
    Mul,
}

/// Comparison operators.
#[derive(Clone, Copy, Debug, PartialEq, Eq, Structural)]
pub enum CmpOpRef {
    Eq,
    Ne,
    Lt,
    Le,
    Gt,
    Ge,
}

/// A syntactic type annotation: a sized integer or `void`.
#[derive(Clone, Copy, Debug, PartialEq, Eq, Structural)]
pub enum TypeRef {
    Int { bits: u32, signed: bool },
    Void,
}

/// A literal value.
#[derive(Clone, Copy, Debug, PartialEq, Eq, Structural)]
pub enum Lit {
    Int { bits: u32, signed: bool, value: i128 },
    Bool(bool),
}

/// An expression: literals, variable references, one comparison layer and
/// left-associative arithmetic.
#[derive(Debug, PartialEq)]
pub enum Expr {
    Lit(Lit),
    Var(String),
    Binary { left: Box<Expr>, op: BinOpRef, right: Box<Expr> },
    Cmp { left: Box<Expr>, op: CmpOpRef, right: Box<Expr> },
}

/// A statement. Nested blocks are flattened into the owning sequence, so
/// nesting only arises through the bodies of `If` and `While`.
#[derive(Debug, PartialEq)]
pub enum Stmt {
    VarDecl { name: String, ty: TypeRef, init: Option<Expr> },
    ConstDecl { name: String, ty: TypeRef, init: Expr },
    Assign { name: String, value: Expr },
    ExprStmt(Expr),
    Return(Option<Expr>),
    If { cond: Expr, then_body: Vec<Stmt>, else_body: Vec<Stmt> },
    While { cond: Expr, body: Vec<Stmt> },
    Break,
    Continue,
}

/// A function parameter.
#[derive(Debug, PartialEq)]
pub struct Parameter {
    pub name: String,
    pub ty: TypeRef,
}

/// A function definition with a flattened statement list as its body.
#[derive(Debug, PartialEq)]
pub struct Function {
    pub name: String,
    pub parameters: Vec<Parameter>,
    pub return_type: TypeRef,
    pub body: Vec<Stmt>,
}

/// A global constant definition.
#[derive(Debug, PartialEq)]
pub struct GlobalConst {
    pub name: String,
    pub ty: TypeRef,
    pub init: Expr,
}

/// A whole translation unit, in source order.
#[derive(Debug, PartialEq)]
pub struct Program {
    pub globals: Vec<GlobalConst>,
    pub functions: Vec<Function>,
}

// ----- the mathematical model of the tree -----

/// Model of `Expr`, with names abstracted to character sequences.
pub enum SpecExpr {
    Lit(Lit),
    Var(Seq<char>),
    Binary { left: Box<SpecExpr>, op: BinOpRef, right: Box<SpecExpr> },
    Cmp { left: Box<SpecExpr>, op: CmpOpRef, right: Box<SpecExpr> },
}

/// Model of `Stmt`.
pub enum SpecStmt {
    VarDecl { name: Seq<char>, ty: TypeRef, init: Option<SpecExpr> },
    ConstDecl { name: Seq<char>, ty: TypeRef, init: SpecExpr },
    Assign { name: Seq<char>, value: SpecExpr },
    ExprStmt(SpecExpr),
    Return(Option<SpecExpr>),
    If { cond: SpecExpr, then_body: Seq<SpecStmt>, else_body: Seq<SpecStmt> },
    While { cond: SpecExpr, body: Seq<SpecStmt> },
    Break,
    Continue,
}

/// Model of `Parameter`.
pub struct SpecParameter {
    pub name: Seq<char>,
    pub ty: TypeRef,
}

/// Model of `Function`.
pub struct SpecFunction {
    pub name: Seq<char>,
    pub parameters: Seq<SpecParameter>,
    pub return_type: TypeRef,
    pub body: Seq<SpecStmt>,
}

/// Model of `GlobalConst`.
pub struct SpecGlobalConst {
    pub name: Seq<char>,
    pub ty: TypeRef,
    pub init: SpecExpr,
}

/// Model of `Program`.
pub struct SpecProgram {
    pub globals: Seq<SpecGlobalConst>,
    pub functions: Seq<SpecFunction>,
}

// ----- views from the executable tree to its model -----

pub open spec fn expr_view(e: &Expr) -> SpecExpr
    decreases e,
{
    match e {
        Expr::Lit(l) => SpecExpr::Lit(*l),
        Expr::Var(n) => SpecExpr::Var(n@),
        Expr::Binary { left, op, right } => SpecExpr::Binary {
            left: Box::new(expr_view(left)),
            op: *op,
            right: Box::new(expr_view(right)),
        },
        Expr::Cmp { left, op, right } => SpecExpr::Cmp {
            left: Box::new(expr_view(left)),
            op: *op,
            right: Box::new(expr_view(right)),
        },
    }
}

pub open spec fn opt_expr_view(e: &Option<Expr>) -> Option<SpecExpr> {
    match e {
        Option::Some(x) => Some(expr_view(x)),
        Option::None => None,
    }
}

pub open spec fn stmt_view(st: &Stmt) -> SpecStmt
    decreases st,
{
    match st {
        Stmt::VarDecl { name, ty, init } => SpecStmt::VarDecl {
            name: name@,
            ty: *ty,
            init: opt_expr_view(init),
        },
        Stmt::ConstDecl { name, ty, init } => SpecStmt::ConstDecl {
            name: name@,
            ty: *ty,
            init: expr_view(init),
        },
        Stmt::Assign { name, value } => SpecStmt::Assign { name: name@, value: expr_view(value) },
        Stmt::ExprStmt(e) => SpecStmt::ExprStmt(expr_view(e)),
        Stmt::Return(e) => SpecStmt::Return(opt_expr_view(e)),
        Stmt::If { cond, then_body, else_body } => SpecStmt::If {
            cond: expr_view(cond),
            then_body: stmts_view(then_body@),
            else_body: stmts_view(else_body@),
        },
        Stmt::While { cond, body } => SpecStmt::While {
            cond: expr_view(cond),
            body: stmts_view(body@),
        },
        Stmt::Break => SpecStmt::Break,
        Stmt::Continue => SpecStmt::Continue,
    }
}

pub open spec fn stmts_view(v: Seq<Stmt>) -> Seq<SpecStmt>
    decreases v,
{
    if v.len() == 0 {
        Seq::empty()
    } else {
        stmts_view(v.drop_last()).push(stmt_view(&v.last()))
    }
}

pub open spec fn param_view(p: &Parameter) -> SpecParameter {
    SpecParameter { name: p.name@, ty: p.ty }
}

pub open spec fn params_view(v: Seq<Parameter>) -> Seq<SpecParameter> {
    v.map_values(|p: Parameter| param_view(&p))
}

pub open spec fn fn_view(f: &Function) -> SpecFunction {
    SpecFunction {
        name: f.name@,
        parameters: params_view(f.parameters@),
        return_type: f.return_type,
        body: stmts_view(f.body@),
    }
}

pub open spec fn global_view(g: &GlobalConst) -> SpecGlobalConst {
    SpecGlobalConst { name: g.name@, ty: g.ty, init: expr_view(&g.init) }
}

pub open spec fn program_view(p: &Program) -> SpecProgram {
    SpecProgram {
        globals: p.globals@.map_values(|g: GlobalConst| global_view(&g)),
        functions: p.functions@.map_values(|f: Function| fn_view(&f)),
    }
}

// ----- small facts about statement-list views -----

pub proof fn lemma_stmts_view_push(v: Seq<Stmt>, st: &Stmt)
    ensures
        stmts_view(v.push(*st)) == stmts_view(v).push(stmt_view(st)),
{
    assert(v.push(*st).drop_last() =~= v);
    assert(v.push(*st).last() == *st);
}

pub proof fn lemma_stmts_view_add(a: Seq<Stmt>, b: Seq<Stmt>)
    ensures
        stmts_view(a + b) == stmts_view(a) + stmts_view(b),
    decreases b.len(),
{
    if b.len() == 0 {
        assert(a + b =~= a);
        assert(stmts_view(a) + stmts_view(b) =~= stmts_view(a));
    } else {
        lemma_stmts_view_add(a, b.drop_last());
        assert((a + b).drop_last() =~= a + b.drop_last());
        assert((a + b).last() == b.last());
        lemma_stmts_view_push(a + b.drop_last(), &b.last());
        assert(stmts_view(a) + stmts_view(b.drop_last()).push(stmt_view(&b.last())) =~= stmts_view(
            a,
        ) + stmts_view(b));
        assert(stmts_view(b.drop_last()).push(stmt_view(&b.last())) == stmts_view(b));
    }
}

} // verus!
