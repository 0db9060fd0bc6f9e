//! The typed abstract syntax tree the compiler consumes.
//!
//! An upstream parser and semantic checker produce this tree; the compiler
//! may assume it is well-typed, but still reports unresolved names, invalid
//! assignment targets, and misplaced `break`/`continue` as compile errors.
use vstd::prelude::*;

verus! {

/// A source-language type; codegen reads it only in the list-allocation
/// construct `make`, which needs the element type's zero value.
#[derive(Debug, PartialEq, Eq)]
pub enum Type {
    Int,
    Char,
    Bool,
    Float,
    Str,
    List(Box<Type>),
    Void,
    Any,
}

/// Arithmetic operators on the top two stack cells.
#[derive(Debug, PartialEq, Eq)]
pub enum ArithOp {
    Add,
    Sub,
    Mul,
    Div,
    Mod,
}

/// Logical operators; both operands are evaluated (no short-circuit).
#[derive(Debug, PartialEq, Eq)]
pub enum BoolOp {
    And,
    Or,
}

/// Comparison operators.
#[derive(Debug, PartialEq, Eq)]
pub enum CmpOp {
    Eq,
    Ne,
    Lt,
    Le,
    Gt,
    Ge,
}

/// A literal. Float literals carry their 64-bit encoding; list literals
/// carry element expressions, compiled left to right.
#[derive(Debug, PartialEq)]
pub enum Lit {
    Int(i64),
    Char(u8),
    Bool(bool),
    Float(u64),
    Str(Vec<u8>),
    List(Vec<Expr>),
}

/// An expression. `Make` is the list-allocation construct
/// `make(list<elem>, size)`; `Subscr` is indexing; `Assign` is an
/// assignment whose target must be a variable or an indexed expression.
#[derive(Debug, PartialEq)]
pub enum Expr {
    Literal(Lit),
    Variable(String),
    Neg(Box<Expr>),
    Not(Box<Expr>),
    Arith(ArithOp, Box<Expr>, Box<Expr>),
    BoolOp(BoolOp, Box<Expr>, Box<Expr>),
    CmpOp(CmpOp, Box<Expr>, Box<Expr>),
    Call(String, Vec<Expr>),
    Subscr(Box<Expr>, Box<Expr>),
    Assign(Box<Expr>, Box<Expr>),
    Make(Type, usize),
}

/// A statement. `IfElse` holds the condition, the then-branch and an
/// optional else-branch; `Decl` declares a fresh local with an initializer.
#[derive(Debug, PartialEq)]
pub enum Stmt {
    Expr(Expr),
    Return(Expr),
    IfElse(Expr, Vec<Stmt>, Option<Vec<Stmt>>),
    While(Expr, Vec<Stmt>),
    Decl(String, Expr),
    Break,
    Continue,
}

/// A function declaration: name, parameters in declaration order, body.
#[derive(Debug, PartialEq)]
pub struct Param {
    pub name: String,
    pub ty: Type,
}

#[derive(Debug, PartialEq)]
pub struct Func {
    pub name: String,
    pub args: Vec<Param>,
    pub body: Vec<Stmt>,
}

/// A whole compilation unit: declared functions in order, then the
/// distinguished entry body, compiled last.
#[derive(Debug, PartialEq)]
pub struct Program {
    pub funcs: Vec<Func>,
    pub main: Vec<Stmt>,
}

} // verus!
