use vstd::prelude::*;
use crate::token::Token;
use crate::value::Value;

verus! {

/// An expression node; each node owns its children.
#[derive(Debug)]
pub enum Expr {
    BinaryExpr(BinaryExpr),
    AssignExpr(AssignExpr),
    GroupingExpr(GroupingExpr),
    LiteralExpr(LiteralExpr),
    UnaryExpr(UnaryExpr),
    VariableExpr(VariableExpr),
    LogicalExpr(LogicalExpr),
}

#[derive(Debug)]
pub struct BinaryExpr {
    pub left: Box<Expr>,
    pub operator: Token,
    pub right: Box<Expr>,
}

#[derive(Debug)]
pub struct AssignExpr {
    pub name: Token,
    pub value: Box<Expr>,
}

#[derive(Debug)]
pub struct GroupingExpr {
    pub expression: Box<Expr>,
}

#[derive(Debug)]
pub struct LiteralExpr {
    pub value: Option<Value>,
}

#[derive(Debug)]
pub struct UnaryExpr {
    pub operator: Token,
    pub right: Box<Expr>,
}

#[derive(Debug)]
pub struct VariableExpr {
    pub name: Token,
}

/// `and` / `or`, evaluated with short circuit.
#[derive(Debug)]
pub struct LogicalExpr {
    pub left: Box<Expr>,
    pub operator: Token,
    pub right: Box<Expr>,
}

/// A statement node. `for` loops are rewritten by the parser into blocks
/// and `while` loops.
#[derive(Debug)]
pub enum Stmt {
    BlockStmt(BlockStmt),
    ExpressionStmt(ExpressionStmt),
    PrintStmt(PrintStmt),
    VarStmt(VarStmt),
    IfStmt(IfStmt),
    WhileStmt(WhileStmt),
}

#[derive(Debug)]
pub struct BlockStmt {
    pub statements: Vec<Stmt>,
}

#[derive(Debug)]
pub struct ExpressionStmt {
    pub expression: Expr,
}

#[derive(Debug)]
pub struct PrintStmt {
    pub expression: Expr,
}

#[derive(Debug)]
pub struct VarStmt {
    pub name: Token,
    pub initializer: Option<Expr>,
}

#[derive(Debug)]
pub struct IfStmt {
    pub condition: Expr,
    pub then_branch: Box<Stmt>,
    pub else_branch: Option<Box<Stmt>>,
}

#[derive(Debug)]
pub struct WhileStmt {
    pub condition: Expr,
    pub body: Box<Stmt>,
}

/// A statement with the statements of a block seen as a sequence.
pub enum StmtV {
    Block(Seq<StmtV>),
    Expression(Expr),
    Print(Expr),
    Var(Token, Option<Expr>),
    If(Expr, Box<StmtV>, Option<Box<StmtV>>),
    While(Expr, Box<StmtV>),
}

pub open spec fn stmt_model(s: Stmt) -> StmtV
    decreases s, 0nat,
{
    match s {
        Stmt::BlockStmt(b) => StmtV::Block(stmts_model(b.statements@, b.statements@.len() as int)),
        Stmt::ExpressionStmt(x) => StmtV::Expression(x.expression),
        Stmt::PrintStmt(x) => StmtV::Print(x.expression),
        Stmt::VarStmt(x) => StmtV::Var(x.name, x.initializer),
        Stmt::IfStmt(x) => StmtV::If(x.condition, Box::new(stmt_model(*x.then_branch)), match x.else_branch {
            Some(b) => Some(Box::new(stmt_model(*b))),
            None => None,
        }),
        Stmt::WhileStmt(w) => StmtV::While(w.condition, Box::new(stmt_model(*w.body))),
    }
}

/// The models of `ss[..n]`.
pub open spec fn stmts_model(ss: Seq<Stmt>, n: int) -> Seq<StmtV>
    decreases ss, n,
{
    if n <= 0 || n > ss.len() {
        Seq::empty()
    } else {
        stmts_model(ss, n - 1).push(stmt_model(ss[n - 1]))
    }
}

} // verus!
