//! The error taxonomy shared by every part of the runtime.
//!
//! Compile-time errors come from the parsing collaborator and are only
//! propagated; the runtime itself produces `RunTime` errors for script
//! mistakes and `Critical` errors for broken internal invariants.

use vstd::prelude::*;
use crate::value::Value;

verus! {

/// Errors reported by the parsing collaborator.  The runtime never produces
/// these itself; it only passes them through.
#[derive(Clone, Copy, PartialEq, Eq, Structural, Debug)]
pub enum CompileCode {
    Error,
    InvalidFile,
    PackageNotFound,
}

/// Errors a script can provoke at run time.
#[derive(Clone, Copy, PartialEq, Eq, Structural, Debug)]
pub enum RunCode {
    // Runtime data errors
    VariableNotDeclared,
    VariableAlreadyDeclared,
    FunctionNotFound,
    PackageNotFound,
    // Statement / function errors
    TypeError,
    InvalidCall,
    WrongNumberOfArguments,
    CannotContinue,
    CannotBreak,
    /// The engine-level guard on call depth and loop iterations ran out.
    RecursionLimit,
    // Expression errors
    OutOfBounds,
    FieldNotFound,
    DivideByZero,
    InvalidNegative,
    InvalidRange,
    ValueNotHashable,
    // Core function errors
    CoreFunctionNotFound,
    CoreBaseTypeError,
    CoreWrongNumberOfArguments,
    CoreArgumentTypeError,
    CoreParseError,
    CoreAccessError,
}

/// Broken internal invariants: these mean a bug in the runtime itself,
/// not in the script being run.
#[derive(Clone, Copy, PartialEq, Eq, Structural, Debug)]
pub enum CriticalCode {
    ScopeError,
    NoDefaultPackage,
}

/// Implemented by host packages that want to surface their own errors.
pub trait CustomError {
    fn to_string(&self) -> String;
}

/// The kind of an `Error`.
#[derive(Clone, PartialEq, Debug)]
pub enum Type {
    /// A user-level thrown value.
    Exception(Value),
    CompileTime(CompileCode),
    RunTime(RunCode),
    Critical(CriticalCode),
    /// An opaque message surfaced by a host-provided package.
    Package(String),
}

#[derive(Clone, PartialEq, Debug)]
pub struct Error {
    pub err_code: Type,
}

impl Error {
    pub fn new(code: Type) -> (r: Self)
        ensures
            r.err_code == code,
    {
        Error { err_code: code }
    }

    /// The kind of this error, for hosts that want to inspect it.
    pub fn code(&self) -> (r: &Type)
        ensures
            *r == self.err_code,
    {
        &self.err_code
    }

    pub open spec fn spec_code(&self) -> Type {
        self.err_code
    }
}

/// Shorthand used all over the evaluator: an expression result that failed
/// with the given error kind.
pub fn mserr(code: Type) -> (r: Result<Value, Error>)
    ensures
        r matches Err(e) && e.spec_code() == code,
{
    Err(Error::new(code))
}

/// True of an expression result that failed with the given run-time code.
pub open spec fn is_run_err(r: Result<Value, Error>, c: RunCode) -> bool {
    r matches Err(e) && e.spec_code() == Type::RunTime(c)
}

} // verus!
