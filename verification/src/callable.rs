//! A value wrapped as a callable, for hosts that hold a function value and
//! invoke it repeatedly.

use vstd::prelude::*;
use crate::builtins::vals_valid;
use crate::error::{is_run_err, mserr, Error, RunCode, Type};
use crate::function::FuncMap;
use crate::heap::{heap_extends, heap_wf, valid_value, Heap};
use crate::value::{ExprRes, Value};

verus! {

pub struct Callable {
    pub base: Value,
}

impl Callable {
    /// Wrap a value; `None` wraps the null value, which calls to nothing.
    pub fn new(b: Option<Value>) -> (r: Self)
        ensures
            b matches Some(v) ==> r.base == v,
            b is None ==> r.base == Value::Null,
    {
        Callable {
            base: match b {
                Some(b_in) => b_in,
                None => Value::Null,
            },
        }
    }

    /// Call the wrapped value: a function reference dispatches through the
    /// registry, a closure runs its body (without its captures, as a bare
    /// call), null yields null, and anything else cannot be called.
    pub fn call(&self, f: &FuncMap, args: &Vec<Value>, heap: &mut Heap, fuel: u64) -> (r: ExprRes)
        requires
            valid_value(self.base, old(heap)@),
            vals_valid(args@, old(heap)@),
            heap_wf(old(heap)@),
        ensures
            heap_extends(final(heap)@, old(heap)@),
            heap_wf(final(heap)@),
            r matches Ok(v) ==> valid_value(v, final(heap)@),
            self.base is Null ==> r == Ok::<Value, Error>(Value::Null) && final(heap)@ == old(
                heap)@,
            !(self.base is Null || self.base is Func || self.base is Closure) ==> is_run_err(
                r,
                RunCode::InvalidCall,
            ) && final(heap)@ == old(heap)@,
            self.base matches Value::Func(_, _) ==> (fuel == 0 ==> is_run_err(
                r,
                RunCode::RecursionLimit,
            ) && final(heap)@ == old(heap)@),
            self.base matches Value::Func(p, n) ==> (fuel > 0 ==> (crate::function::pkg_find(
                f.packages@,
                p@,
            ) == -1 ==> is_run_err(r, RunCode::PackageNotFound) && final(heap)@ == old(heap)@)),
            self.base matches Value::Func(p, n) ==> (fuel > 0 ==> (crate::function::found_fn(
                f.packages@,
                p@,
                n@,
            ) ==> (args@.len() != crate::function::registered_func(
                f.packages@,
                p@,
                n@,
            ).arg_names@.len() ==> is_run_err(r, RunCode::WrongNumberOfArguments) && final(heap)@
                == old(heap)@))),
            self.base matches Value::Func(p, n) ==> (fuel > 0 ==> (crate::function::found_fn(
                f.packages@,
                p@,
                n@,
            ) ==> (args@.len() == crate::function::registered_func(f.packages@, p@, n@).arg_names@.len()
                && crate::function::registered_func(f.packages@, p@, n@).stat_list@.len() == 0 ==> r
                == Ok::<Value, Error>(Value::Null) && final(heap)@ == old(heap)@))),
            self.base matches Value::Closure(_, _) ==> (fuel == 0 ==> is_run_err(
                r,
                RunCode::RecursionLimit,
            ) && final(heap)@ == old(heap)@),
            self.base matches Value::Closure(func, _) ==> (fuel > 0 ==> (args@.len()
                != func.arg_names@.len() ==> is_run_err(r, RunCode::WrongNumberOfArguments)
                && final(heap)@ == old(heap)@)),
            self.base matches Value::Closure(func, _) ==> (fuel > 0 ==> (args@.len()
                == func.arg_names@.len() && func.stat_list@.len() == 0 ==> r == Ok::<Value, Error>(
                Value::Null,
            ) && final(heap)@ == old(heap)@)),
        decreases fuel,
    {
        match &self.base {
            Value::Func(package, name) => f.call_fn(
                package.as_str(),
                name.as_str(),
                args,
                heap,
                fuel,
            ),
            Value::Closure(func, _) => {
                if fuel == 0 {
                    mserr(Type::RunTime(RunCode::RecursionLimit))
                } else {
                    func.call(args, f, heap, None, fuel - 1)
                }
            },
            Value::Null => Ok(Value::Null),
            _ => mserr(Type::RunTime(RunCode::InvalidCall)),
        }
    }

    /// Point the callable at another value.
    pub fn set_value(&mut self, val: Value)
        ensures
            final(self).base == val,
    {
        self.base = val;
    }
}

} // verus!
