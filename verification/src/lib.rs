//! Evaluation runtime for a small dynamically typed scripting language.
//!
//! The crate takes an already-parsed program (a tree of expression, statement
//! and assignment nodes) together with a registry of callable packages, and
//! executes it.  Values live either inline (primitives) or in an arena of
//! shared cells (`Heap`), so that aliasing through promoted bindings and
//! reference-type containers is explicit and provable.  Statements report
//! their outcome through the `Signal` type instead of exceptions.

pub mod ast;
pub mod builtins;
pub mod callable;
pub mod compare;
pub mod error;
pub mod eval;
pub mod function;
pub mod hash;
pub mod heap;
pub mod ops;
pub mod render;
pub mod resolver;
pub mod scope;
pub mod text;
pub mod value;

pub use ast::{AstNode, Assign, CaseType, Expr, FuncRoot, Script, ScriptExpr, ScriptPackage,
    Statement, ValExpr};
pub use builtins::core_func_call;
pub use callable::Callable;
pub use error::{mserr, CompileCode, CriticalCode, CustomError, Error, RunCode, Type};
pub use function::FuncMap;
pub use hash::hash_value;
pub use heap::{Heap, HeapVal};
pub use resolver::Resolver;
pub use scope::Scope;
pub use value::{ExprRes, HashV, Signal, VType, Value};
