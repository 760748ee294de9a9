//! The abstract syntax tree the runtime executes.
//!
//! Node dispatch is a closed sum type per category — `Expr` for expressions,
//! `Statement` for statements, `Assign` for assignment-chain steps — with one
//! variant per node kind.  The parsing collaborator hands the runtime a
//! well-formed tree of these nodes; the runtime never re-validates syntax.

use vstd::prelude::*;
use std::rc::Rc;

verus! {

/// Literal and naming expressions.
#[derive(PartialEq, Debug)]
pub enum ValExpr {
    /// A package-qualified identifier: a variable read, falling back to a
    /// function reference into the named package.
    QualId(String, String),
    /// `ref x`: read the binding, promoting it to a shared cell.
    Ref(String),
    Int(i64),
    Bool(bool),
    /// A composite hashable key built from two sub-expressions.
    Pair(Box<Expr>, Box<Expr>),
    Text(String),
    List(Vec<Expr>),
    Obj(Vec<(String, Expr)>),
    Dict(Vec<(Expr, Expr)>),
    /// A closure literal: a function body that captures the defining scope.
    Closure(Rc<FuncRoot>),
    Null,
}

/// Expression nodes.
#[derive(PartialEq, Debug)]
pub enum Expr {
    Val(ValExpr),
    /// `start .. end` or `start : step .. end`.
    Range(Box<Expr>, Option<Box<Expr>>, Box<Expr>),
    /// `base[index]`.
    Index(Box<Expr>, Box<Expr>),
    /// `base.field`.
    Access(Box<Expr>, String),
    Add(Box<Expr>, Box<Expr>),
    Sub(Box<Expr>, Box<Expr>),
    Mul(Box<Expr>, Box<Expr>),
    Div(Box<Expr>, Box<Expr>),
    Mod(Box<Expr>, Box<Expr>),
    Neg(Box<Expr>),
    /// Weak (coercing) equality.
    Eq(Box<Expr>, Box<Expr>),
    NEq(Box<Expr>, Box<Expr>),
    /// Strict same-type equality.
    TrueEq(Box<Expr>, Box<Expr>),
    TrueNEq(Box<Expr>, Box<Expr>),
    GThan(Box<Expr>, Box<Expr>),
    GEq(Box<Expr>, Box<Expr>),
    LThan(Box<Expr>, Box<Expr>),
    LEq(Box<Expr>, Box<Expr>),
    Not(Box<Expr>),
    And(Box<Expr>, Box<Expr>),
    Or(Box<Expr>, Box<Expr>),
    Xor(Box<Expr>, Box<Expr>),
    /// Call of whatever the base expression evaluates to.
    FuncCall(Box<Expr>, Vec<Expr>),
    /// Call of a built-in method on the base value.
    CoreFuncCall(String, Box<Expr>, Vec<Expr>),
}

/// One case of a `match` statement: a binding case always matches and binds
/// the subject; a value case matches by weak equality.
#[derive(PartialEq, Debug)]
pub enum CaseType {
    Var(String),
    Value(Expr),
}

/// Statement nodes.
#[derive(PartialEq, Debug)]
pub enum Statement {
    /// A `{ ... }` block with its own frame.
    Scope(Vec<Statement>),
    /// `var name;` or `var name = expr;`.
    VarDecl(String, Option<Expr>),
    /// `name«chain» = expr;` — a bare write, or a write through an
    /// index/field chain.
    Assign(String, Expr, Option<Box<Assign>>),
    /// An expression evaluated for its effects.
    Expr(Expr),
    If(Expr, Box<Statement>, Option<Box<Statement>>),
    Match(Expr, Vec<(CaseType, Statement)>, Option<Box<Statement>>),
    While(Expr, Box<Statement>),
    /// `for name in list { ... }`.
    For(String, Expr, Box<Statement>),
    Return(Option<Expr>),
    Continue,
    Break,
}

/// One step of an assignment target chain (`a[i].f = v`).
#[derive(PartialEq, Debug)]
pub enum Assign {
    /// `[index]`, then optionally a deeper step.
    Index(Expr, Option<Box<Assign>>),
    /// `.field`, then optionally a deeper step.
    Access(String, Option<Box<Assign>>),
}

/// A function body: parameter names plus statements.  Immutable after
/// construction; closures copy it into a shared heap cell.
#[derive(PartialEq, Debug)]
pub struct FuncRoot {
    pub arg_names: Vec<String>,
    pub stat_list: Vec<Statement>,
}

impl FuncRoot {
    pub fn new(arg_names: Vec<String>, stat_list: Vec<Statement>) -> (r: Self)
        ensures
            r.arg_names == arg_names,
            r.stat_list == stat_list,
    {
        FuncRoot { arg_names, stat_list }
    }

    pub fn get_arg_names(&self) -> (r: &Vec<String>)
        ensures
            *r == self.arg_names,
    {
        &self.arg_names
    }
}

/// Entry point for a free-standing statement snippet.
pub struct Script {
    pub stat: Statement,
}

/// Entry point for a single-expression snippet.
pub struct ScriptExpr {
    pub expr: Option<Expr>,
}

/// A parsed package: a mapping from function name to function body, ready to
/// be attached to a dispatch registry.
pub struct ScriptPackage {
    pub funcs: Vec<(String, FuncRoot)>,
}

impl Script {
    pub fn new(s: Statement) -> (r: Self)
        ensures
            r.stat == s,
    {
        Script { stat: s }
    }
}

impl ScriptExpr {
    pub fn new(e: Option<Expr>) -> (r: Self)
        ensures
            r.expr == e,
    {
        ScriptExpr { expr: e }
    }
}

impl ScriptPackage {
    pub fn new(f: Vec<(String, FuncRoot)>) -> (r: Self)
        ensures
            r.funcs == f,
    {
        ScriptPackage { funcs: f }
    }
}

/// Implemented by every node category, for diagnostics.
pub trait AstNode {
    fn print(&self) -> String;
}

impl AstNode for ValExpr {
    fn print(&self) -> String {
        "Val".to_owned()
    }
}

impl AstNode for Expr {
    fn print(&self) -> String {
        "Val".to_owned()
    }
}

impl AstNode for Statement {
    fn print(&self) -> String {
        "scope".to_owned()
    }
}

impl AstNode for Assign {
    fn print(&self) -> String {
        "scope".to_owned()
    }
}

impl AstNode for FuncRoot {
    fn print(&self) -> String {
        "var".to_owned()
    }
}

} // verus!
