//! The runtime value model.
//!
//! A `Value` is either an owned scalar primitive (`Val`) or a handle into the
//! arena of shared cells (`Heap` in the `heap` module).  Copying a handle
//! copies the reference, not the content, so containers and promoted
//! primitives behave as shared, mutably aliasable data.  `valid_value` ties a
//! handle to the kind of cell it must point at.

use vstd::prelude::*;
use std::rc::Rc;
use crate::ast::FuncRoot;
use crate::error::Error;

verus! {

/// Scalar primitives: integers and booleans.  (Floating-point numbers are
/// outside this runtime's value model.)
#[derive(Clone, Copy, PartialEq, Eq, Structural, Debug)]
pub enum VType {
    I(i64),
    B(bool),
}

/// Container keys are 64-bit hashes of the key value.
pub type HashV = u64;

/// A runtime datum: an owned primitive, or a handle to a shared heap cell.
#[derive(Clone, PartialEq, Debug)]
pub enum Value {
    /// Owned copy of a scalar primitive.
    Val(VType),
    /// A primitive held in a shared, mutably aliasable cell; created only by
    /// explicit promotion (the `ref` operator or closure capture).
    Ref(usize),
    /// Two shared value cells, usable as a composite hashable key.
    Pair(usize, usize),
    /// Shared text cell.
    Str(usize),
    /// Shared ordered sequence of values.
    List(usize),
    /// Shared mapping from field name to value.
    Obj(usize),
    /// Shared mapping from key hash to (original key, value).
    Dict(usize),
    /// Unresolved reference to a package-level function, resolved at call
    /// time through the dispatch registry.
    Func(String, String),
    /// A shared function body plus a captured-scope cell.
    Closure(Rc<FuncRoot>, usize),
    Null,
}

/// The control-flow result of running one statement.  Transient: produced by
/// statement execution and consumed immediately by the caller.
#[derive(PartialEq, Debug)]
pub enum Signal {
    Error(Error),
    Return(Value),
    Continue,
    Break,
    Done,
}

/// The result of evaluating one expression.
pub type ExprRes = Result<Value, Error>;

/// Relies on `Rc::clone` (alloc): another handle to the same shared value.
#[verifier::external_body]
pub fn rc_dup(rc: &Rc<FuncRoot>) -> (r: Rc<FuncRoot>)
    ensures
        r == *rc,
{
    Rc::clone(rc)
}

impl Value {
    /// An equal value: copies the primitive or the handle, never the cell
    /// contents.  (The derived `Clone` carries no specification, so verified
    /// code duplicates values through this method.)
    pub fn dup(&self) -> (r: Value)
        ensures
            r == *self,
    {
        match self {
            Value::Val(p) => Value::Val(*p),
            Value::Ref(i) => Value::Ref(*i),
            Value::Pair(a, b) => Value::Pair(*a, *b),
            Value::Str(i) => Value::Str(*i),
            Value::List(i) => Value::List(*i),
            Value::Obj(i) => Value::Obj(*i),
            Value::Dict(i) => Value::Dict(*i),
            Value::Func(p, n) => Value::Func(p.clone(), n.clone()),
            Value::Closure(f, c) => Value::Closure(rc_dup(f), *c),
            Value::Null => Value::Null,
        }
    }
}

/// Element-for-element copy of a value vector (handles are copied, cell
/// contents are not).
pub fn dup_values(v: &Vec<Value>) -> (r: Vec<Value>)
    ensures
        r@ == v@,
{
    let n = v.len();
    let mut out: Vec<Value> = Vec::new();
    let mut i: usize = 0;
    while i < n
        invariant
            i <= n,
            n == v@.len(),
            out@ =~= v@.take(i as int),
        decreases n - i,
    {
        out.push(v[i].dup());
        proof {
            assert(out@ =~= v@.take(i as int + 1));
        }
        i += 1;
    }
    proof {
        assert(v@.take(n as int) =~= v@);
    }
    out
}

/// Element-for-element copy of a binding list: names keep their characters,
/// values their handles.
pub fn dup_bindings(v: &Vec<(String, Value)>) -> (r: Vec<(String, Value)>)
    ensures
        r@.len() == v@.len(),
        forall|k: int|
            0 <= k < v@.len() ==> (#[trigger] r@[k]).0@ == v@[k].0@ && r@[k].1 == v@[k].1,
{
    let n = v.len();
    let mut out: Vec<(String, Value)> = Vec::new();
    let mut i: usize = 0;
    while i < n
        invariant
            i <= n,
            n == v@.len(),
            out@.len() == i,
            forall|k: int|
                0 <= k < i ==> (#[trigger] out@[k]).0@ == v@[k].0@ && out@[k].1 == v@[k].1,
        decreases n - i,
    {
        out.push((v[i].0.clone(), v[i].1.dup()));
        i += 1;
    }
    out
}

impl Signal {
    /// True of `Done`, the signal that lets the following statement run.
    pub open spec fn is_done(&self) -> bool {
        self matches Signal::Done
    }
}

} // verus!
