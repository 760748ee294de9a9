//! Textual rendering of values and errors, for diagnostics and REPL echo.
//!
//! Scalars render literally, text renders quoted, containers render their
//! contents between brackets; a closure renders opaquely.  Containers can
//! reference themselves through the heap, so rendering carries fuel and
//! cuts a too-deep structure short.

use vstd::prelude::*;
use vstd::string::*;
use crate::error::{CompileCode, CriticalCode, Error, RunCode, Type};
use crate::heap::{heap_wf, valid_value, Heap, HeapVal};
use crate::text::{bool_chars, bool_to_string, i64_to_string, int_chars};
use crate::value::{VType, Value};

verus! {

/// How deep rendering follows nested containers.
pub const RENDER_DEPTH: u64 = 32;

/// The textual form of a scalar or null value, where one exists.
pub open spec fn scalar_chars(v: Value) -> Option<Seq<char>> {
    match v {
        Value::Val(VType::I(i)) => Some(int_chars(i as int)),
        Value::Val(VType::B(b)) => Some(bool_chars(b)),
        Value::Null => Some("null"@),
        _ => None,
    }
}

/// Every element is a scalar or null.
pub open spec fn all_scalars(elems: Seq<Value>) -> bool {
    forall|k: int| 0 <= k < elems.len() ==> scalar_chars(#[trigger] elems[k]) is Some
}

/// The rendering of scalar list elements from position `i` on, separated by
/// a comma and a space.
pub open spec fn spec_items(elems: Seq<Value>, i: int) -> Seq<char>
    decreases (if i < elems.len() { elems.len() - i } else { 0int }),
{
    if i < 0 || i >= elems.len() {
        Seq::empty()
    } else {
        let item = match scalar_chars(elems[i]) {
            Some(s) => s,
            None => Seq::empty(),
        };
        if i + 1 < elems.len() {
            item + ", "@ + spec_items(elems, i + 1)
        } else {
            item
        }
    }
}

impl Value {
    /// The textual form of this value, following shared cells through the
    /// heap.  Scalars render their literal form; deeper structure renders
    /// between brackets.
    pub fn render(&self, heap: &Heap) -> (r: String)
        requires
            valid_value(*self, heap@),
            heap_wf(heap@),
        ensures
            (*self) matches Value::Val(p) ==> (p matches VType::I(i) ==> r@ == int_chars(
                i as int,
            )),
            (*self) matches Value::Val(p) ==> (p matches VType::B(b) ==> r@ == bool_chars(b)),
            (*self) matches Value::Null ==> r@ == "null"@,
            (*self) matches Value::Ref(c) ==> (heap@[c as int] matches HeapVal::Prim(pc) ==> (pc
                matches VType::I(i) ==> r@ == int_chars(i as int))),
            (*self) matches Value::Ref(c) ==> (heap@[c as int] matches HeapVal::Prim(pc) ==> (pc
                matches VType::B(b) ==> r@ == bool_chars(b))),
            (*self) matches Value::Str(sx) ==> r@ == seq!['"'] + crate::ops::text_of(heap@, sx)
                + seq!['"'],
            (*self) matches Value::Func(p, nm) ==> r@ == "function{"@ + p@ + "::"@ + nm@ + "}"@,
            (*self) matches Value::Closure(_, _) ==> r@ == "closure{}"@,
            (*self) matches Value::List(l) ==> (all_scalars(crate::ops::elems_of(heap@, l)) ==> r@
                == "["@ + spec_items(crate::ops::elems_of(heap@, l), 0) + "]"@),
    {
        render_value(self, heap, RENDER_DEPTH)
    }
}

fn render_value(v: &Value, heap: &Heap, fuel: u64) -> (r: String)
    requires
        valid_value(*v, heap@),
        heap_wf(heap@),
    ensures
        (*v) matches Value::Val(p) ==> (p matches VType::I(i) ==> r@ == int_chars(i as int)),
        (*v) matches Value::Val(p) ==> (p matches VType::B(b) ==> r@ == bool_chars(b)),
        (*v) matches Value::Null ==> r@ == "null"@,
        (*v) matches Value::Ref(c) ==> (heap@[c as int] matches HeapVal::Prim(pc) ==> (pc matches
        VType::I(i) ==> r@ == int_chars(i as int))),
        (*v) matches Value::Ref(c) ==> (heap@[c as int] matches HeapVal::Prim(pc) ==> (pc matches
        VType::B(b) ==> r@ == bool_chars(b))),
        (*v) matches Value::Str(sx) ==> r@ == seq!['"'] + crate::ops::text_of(heap@, sx)
            + seq!['"'],
        (*v) matches Value::Func(p, nm) ==> r@ == "function{"@ + p@ + "::"@ + nm@ + "}"@,
        (*v) matches Value::Closure(_, _) ==> r@ == "closure{}"@,
        fuel > 0 ==> ((*v) matches Value::List(l) ==> (all_scalars(crate::ops::elems_of(heap@, l))
            ==> r@ == "["@ + spec_items(crate::ops::elems_of(heap@, l), 0) + "]"@)),
    decreases fuel,
{
    match v {
        Value::Val(VType::I(i)) => i64_to_string(*i),
        Value::Val(VType::B(b)) => bool_to_string(*b),
        Value::Null => "null".to_owned(),
        Value::Ref(c) => {
            match heap.get(*c) {
                HeapVal::Prim(VType::I(i)) => i64_to_string(*i),
                HeapVal::Prim(VType::B(b)) => bool_to_string(*b),
                _ => String::new(),
            }
        },
        Value::Str(s) => {
            let mut out = "\"".to_owned();
            match heap.get(*s) {
                HeapVal::Text(t) => {
                    out.append(t.as_str());
                },
                _ => {
                    proof {
                        assert(false);
                    }
                },
            }
            out.append("\"");
            proof {
                reveal_strlit("\"");
                assert(out@ =~= seq!['"'] + crate::ops::text_of(heap@, *s) + seq!['"']);
            }
            out
        },
        Value::Pair(a, b) => {
            if fuel == 0 {
                return "<>".to_owned();
            }
            let mut out = "<".to_owned();
            match heap.get(*a) {
                HeapVal::Cell(va) => {
                    proof {
                        assert(crate::heap::cell_ok(heap@[*a as int], heap@));
                    }
                    let part = render_value(&va.dup(), heap, fuel - 1);
                    out.append(part.as_str());
                },
                _ => {},
            }
            out.append(", ");
            match heap.get(*b) {
                HeapVal::Cell(vb) => {
                    proof {
                        assert(crate::heap::cell_ok(heap@[*b as int], heap@));
                    }
                    let part = render_value(&vb.dup(), heap, fuel - 1);
                    out.append(part.as_str());
                },
                _ => {},
            }
            out.append(">");
            out
        },
        Value::List(l) => {
            if fuel == 0 {
                return "[]".to_owned();
            }
            let mut out = "[".to_owned();
            let n = match heap.get(*l) {
                HeapVal::List(el) => el.len(),
                _ => 0,
            };
            let ghost elems = crate::ops::elems_of(heap@, *l);
            let mut i: usize = 0;
            while i < n
                invariant
                    i <= n,
                    valid_value(Value::List(*l), heap@),
                    heap_wf(heap@),
                    elems == crate::ops::elems_of(heap@, *l),
                    n == elems.len(),
                    fuel >= 1,
                    all_scalars(elems) ==> "["@ + spec_items(elems, 0) =~= out@ + spec_items(
                        elems,
                        i as int,
                    ),
                decreases n - i,
            {
                let e = match heap.get(*l) {
                    HeapVal::List(el) => el[i].dup(),
                    _ => Value::Null,
                };
                proof {
                    assert(crate::heap::cell_ok(heap@[*l as int], heap@));
                    assert(valid_value(crate::ops::elems_of(heap@, *l)[i as int], heap@));
                    assert(e == elems[i as int]);
                }
                let part = render_value(&e, heap, fuel - 1);
                out.append(part.as_str());
                if i + 1 < n {
                    out.append(", ");
                }
                proof {
                    if all_scalars(elems) {
                        assert(scalar_chars(elems[i as int]) is Some);
                        assert(part@ == scalar_chars(elems[i as int])->Some_0);
                        assert("["@ + spec_items(elems, 0) =~= out@ + spec_items(
                            elems,
                            i as int + 1,
                        ));
                    }
                }
                i += 1;
            }
            out.append("]");
            proof {
                if all_scalars(elems) {
                    assert(out@ =~= "["@ + spec_items(elems, 0) + "]"@);
                }
            }
            out
        },
        Value::Obj(o) => {
            if fuel == 0 {
                return "object{}".to_owned();
            }
            let mut out = "object{".to_owned();
            let n = match heap.get(*o) {
                HeapVal::Obj(fs) => fs.len(),
                _ => 0,
            };
            let mut i: usize = 0;
            while i < n
                invariant
                    valid_value(Value::Obj(*o), heap@),
                    heap_wf(heap@),
                    n == crate::ops::fields_of(heap@, *o).len(),
                    fuel >= 1,
                decreases n - i,
            {
                let (nm, fv) = match heap.get(*o) {
                    HeapVal::Obj(fs) => (fs[i].0.clone(), fs[i].1.dup()),
                    _ => (String::new(), Value::Null),
                };
                proof {
                    assert(crate::heap::cell_ok(heap@[*o as int], heap@));
                    assert(valid_value(crate::ops::fields_of(heap@, *o)[i as int].1, heap@));
                }
                out.append(nm.as_str());
                out.append(": ");
                let part = render_value(&fv, heap, fuel - 1);
                out.append(part.as_str());
                if i + 1 < n {
                    out.append(", ");
                }
                i += 1;
            }
            out.append("}");
            out
        },
        Value::Dict(m) => {
            if fuel == 0 {
                return "map{}".to_owned();
            }
            let mut out = "map{".to_owned();
            let n = match heap.get(*m) {
                HeapVal::Dict(es) => es.len(),
                _ => 0,
            };
            let mut i: usize = 0;
            while i < n
                invariant
                    valid_value(Value::Dict(*m), heap@),
                    heap_wf(heap@),
                    n == crate::ops::entries_of(heap@, *m).len(),
                    fuel >= 1,
                decreases n - i,
            {
                let (kv, vv) = match heap.get(*m) {
                    HeapVal::Dict(es) => (es[i].1.dup(), es[i].2.dup()),
                    _ => (Value::Null, Value::Null),
                };
                proof {
                    assert(crate::heap::cell_ok(heap@[*m as int], heap@));
                    assert(valid_value(crate::ops::entries_of(heap@, *m)[i as int].1, heap@)
                        && valid_value(crate::ops::entries_of(heap@, *m)[i as int].2, heap@));
                }
                out.append("[");
                let kpart = render_value(&kv, heap, fuel - 1);
                out.append(kpart.as_str());
                out.append("]= ");
                let vpart = render_value(&vv, heap, fuel - 1);
                out.append(vpart.as_str());
                if i + 1 < n {
                    out.append(", ");
                }
                i += 1;
            }
            out.append("}");
            out
        },
        Value::Func(p, nm) => {
            let mut out = "function{".to_owned();
            out.append(p.as_str());
            out.append("::");
            out.append(nm.as_str());
            out.append("}");
            proof {
                assert(out@ =~= "function{"@ + p@ + "::"@ + nm@ + "}"@);
            }
            out
        },
        Value::Closure(_, _) => "closure{}".to_owned(),
    }
}

impl Error {
    /// A short human-readable description of this error.
    pub fn to_string(&self) -> (r: String) {
        match &self.err_code {
            Type::Exception(_) => "Exception occurred".to_owned(),
            Type::CompileTime(c) => {
                let mut out = "Compile error: ".to_owned();
                out.append(
                    match c {
                        CompileCode::Error => "Error",
                        CompileCode::InvalidFile => "InvalidFile",
                        CompileCode::PackageNotFound => "PackageNotFound",
                    },
                );
                out
            },
            Type::RunTime(c) => {
                let mut out = "Runtime error: ".to_owned();
                out.append(
                    match c {
                        RunCode::VariableNotDeclared => "VariableNotDeclared",
                        RunCode::VariableAlreadyDeclared => "VariableAlreadyDeclared",
                        RunCode::FunctionNotFound => "FunctionNotFound",
                        RunCode::PackageNotFound => "PackageNotFound",
                        RunCode::TypeError => "TypeError",
                        RunCode::InvalidCall => "InvalidCall",
                        RunCode::WrongNumberOfArguments => "WrongNumberOfArguments",
                        RunCode::CannotContinue => "CannotContinue",
                        RunCode::CannotBreak => "CannotBreak",
                        RunCode::RecursionLimit => "RecursionLimit",
                        RunCode::OutOfBounds => "OutOfBounds",
                        RunCode::FieldNotFound => "FieldNotFound",
                        RunCode::DivideByZero => "DivideByZero",
                        RunCode::InvalidNegative => "InvalidNegative",
                        RunCode::InvalidRange => "InvalidRange",
                        RunCode::ValueNotHashable => "ValueNotHashable",
                        RunCode::CoreFunctionNotFound => "CoreFunctionNotFound",
                        RunCode::CoreBaseTypeError => "CoreBaseTypeError",
                        RunCode::CoreWrongNumberOfArguments => "CoreWrongNumberOfArguments",
                        RunCode::CoreArgumentTypeError => "CoreArgumentTypeError",
                        RunCode::CoreParseError => "CoreParseError",
                        RunCode::CoreAccessError => "CoreAccessError",
                    },
                );
                out
            },
            Type::Critical(c) => {
                let mut out = "Internal error: ".to_owned();
                out.append(
                    match c {
                        CriticalCode::ScopeError => "ScopeError",
                        CriticalCode::NoDefaultPackage => "NoDefaultPackage",
                    },
                );
                out
            },
            Type::Package(msg) => msg.clone(),
        }
    }
}

} // verus!
