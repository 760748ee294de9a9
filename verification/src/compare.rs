//! The language's three equality relations.
//!
//! *Structural* equality is what containers use for their elements: same
//! variant, and equal content behind the cells (promoted primitives compare
//! by content; closures never compare equal).  Objects are mappings, so their
//! fields compare by name, not by position: two objects are equal when they
//! have the same number of fields and every field of one finds a field of
//! the same name with an equal value in the other.  Map entries compare by
//! position (their order is the insertion order of hashes).
//!
//! *Weak* equality is the coercing `==`/`!=` of the language: integers,
//! booleans and text cross-compare (`0 == false`, `"3" == 3`), lists and
//! objects compare element- and field-wise, and an unmatched pairing of kinds
//! is simply `false`, never an error.
//!
//! *Strict* equality (`===`/`!==`) accepts only two values of the same kind
//! and reports a type error for any mismatch.
//!
//! Values can reference cells that reference further values, without bound,
//! so each relation carries fuel; running out reports the recursion limit.

use vstd::prelude::*;
use crate::error::{Error, RunCode, Type};
use crate::heap::{heap_wf, valid_value, Heap, HeapVal};
use crate::text::{bool_chars, int_chars, str_eq};
use crate::value::{VType, Value};

verus! {

/// How deep equality follows nested containers before giving up.
pub const EQ_DEPTH: u64 = 256;

/// Structural equality of two values.  `None` means the fuel ran out.
pub open spec fn spec_struct_eq(a: Value, b: Value, h: Seq<HeapVal>, fuel: nat) -> Option<bool>
    decreases fuel, 0int, 0int,
{
    match (a, b) {
        (Value::Val(p), Value::Val(q)) => Some(p == q),
        (Value::Ref(x), Value::Ref(y)) => if x < h.len() && y < h.len() {
            match (h[x as int], h[y as int]) {
                (HeapVal::Prim(p), HeapVal::Prim(q)) => Some(p == q),
                _ => Some(false),
            }
        } else {
            Some(false)
        },
        (Value::Pair(a1, a2), Value::Pair(b1, b2)) => if fuel == 0 {
            None
        } else if a1 < h.len() && a2 < h.len() && b1 < h.len() && b2 < h.len() {
            match (h[a1 as int], h[a2 as int], h[b1 as int], h[b2 as int]) {
                (HeapVal::Cell(va1), HeapVal::Cell(va2), HeapVal::Cell(vb1), HeapVal::Cell(vb2)) => {
                    match spec_struct_eq(va1, vb1, h, (fuel - 1) as nat) {
                        Some(true) => spec_struct_eq(va2, vb2, h, (fuel - 1) as nat),
                        r => r,
                    }
                },
                _ => Some(false),
            }
        } else {
            Some(false)
        },
        (Value::Str(x), Value::Str(y)) => if x < h.len() && y < h.len() {
            match (h[x as int], h[y as int]) {
                (HeapVal::Text(s), HeapVal::Text(t)) => Some(s@ == t@),
                _ => Some(false),
            }
        } else {
            Some(false)
        },
        (Value::List(x), Value::List(y)) => if fuel == 0 {
            None
        } else if x < h.len() && y < h.len() {
            match (h[x as int], h[y as int]) {
                (HeapVal::List(la), HeapVal::List(lb)) => if la@.len() != lb@.len() {
                    Some(false)
                } else {
                    spec_list_eq(la@, lb@, h, (fuel - 1) as nat, 0)
                },
                _ => Some(false),
            }
        } else {
            Some(false)
        },
        (Value::Obj(x), Value::Obj(y)) => if fuel == 0 {
            None
        } else if x < h.len() && y < h.len() {
            match (h[x as int], h[y as int]) {
                (HeapVal::Obj(oa), HeapVal::Obj(ob)) => if oa@.len() != ob@.len() {
                    Some(false)
                } else {
                    spec_obj_eq(oa@, ob@, h, (fuel - 1) as nat, 0)
                },
                _ => Some(false),
            }
        } else {
            Some(false)
        },
        (Value::Dict(x), Value::Dict(y)) => if fuel == 0 {
            None
        } else if x < h.len() && y < h.len() {
            match (h[x as int], h[y as int]) {
                (HeapVal::Dict(ma), HeapVal::Dict(mb)) => if ma@.len() != mb@.len() {
                    Some(false)
                } else {
                    spec_dict_eq(ma@, mb@, h, (fuel - 1) as nat, 0)
                },
                _ => Some(false),
            }
        } else {
            Some(false)
        },
        (Value::Func(p1, n1), Value::Func(p2, n2)) => Some(p1@ == p2@ && n1@ == n2@),
        (Value::Closure(_, _), Value::Closure(_, _)) => Some(false),
        (Value::Null, Value::Null) => Some(true),
        _ => Some(false),
    }
}

/// Elementwise structural equality of two equally long element sequences,
/// from position `i` on.
pub open spec fn spec_list_eq(
    xs: Seq<Value>,
    ys: Seq<Value>,
    h: Seq<HeapVal>,
    fuel: nat,
    i: int,
) -> Option<bool>
    decreases fuel, xs.len() - i, 1int,
{
    if i < 0 || i >= xs.len() || xs.len() != ys.len() {
        Some(true)
    } else {
        match spec_struct_eq(xs[i], ys[i], h, fuel) {
            Some(true) => spec_list_eq(xs, ys, h, fuel, i + 1),
            r => r,
        }
    }
}

/// Fieldwise structural equality of two equally long field lists, by name:
/// every field of the left list must find a field of the same name with an
/// equal value in the right list, wherever it stands.
pub open spec fn spec_obj_eq(
    xs: Seq<(String, Value)>,
    ys: Seq<(String, Value)>,
    h: Seq<HeapVal>,
    fuel: nat,
    i: int,
) -> Option<bool>
    decreases fuel, xs.len() - i, 1int,
{
    if i < 0 || i >= xs.len() || xs.len() != ys.len() {
        Some(true)
    } else if crate::ops::obj_find(ys, xs[i].0@) == -1 {
        Some(false)
    } else {
        match spec_struct_eq(xs[i].1, ys[crate::ops::obj_find(ys, xs[i].0@)].1, h, fuel) {
            Some(true) => spec_obj_eq(xs, ys, h, fuel, i + 1),
            r => r,
        }
    }
}

/// Entrywise structural equality of two equally long map-entry sequences:
/// key hashes, original keys and values, in order.
pub open spec fn spec_dict_eq(
    xs: Seq<(u64, Value, Value)>,
    ys: Seq<(u64, Value, Value)>,
    h: Seq<HeapVal>,
    fuel: nat,
    i: int,
) -> Option<bool>
    decreases fuel, xs.len() - i, 1int,
{
    if i < 0 || i >= xs.len() || xs.len() != ys.len() {
        Some(true)
    } else if xs[i].0 != ys[i].0 {
        Some(false)
    } else {
        match spec_struct_eq(xs[i].1, ys[i].1, h, fuel) {
            Some(true) => match spec_struct_eq(xs[i].2, ys[i].2, h, fuel) {
                Some(true) => spec_dict_eq(xs, ys, h, fuel, i + 1),
                r => r,
            },
            r => r,
        }
    }
}

/// Weak (coercing) equality.  `None` means the fuel ran out.
pub open spec fn spec_weak_eq(a: Value, b: Value, h: Seq<HeapVal>, fuel: nat) -> Option<bool> {
    match (a, b) {
        (Value::Val(VType::I(x)), Value::Val(VType::I(y))) => Some(x == y),
        (Value::Val(VType::I(x)), Value::Val(VType::B(y))) => Some((x != 0) == y),
        (Value::Val(VType::B(x)), Value::Val(VType::I(y))) => Some(x == (y != 0)),
        (Value::Val(VType::B(x)), Value::Val(VType::B(y))) => Some(x == y),
        (Value::Val(VType::I(x)), Value::Str(s)) => if s < h.len() {
            match h[s as int] {
                HeapVal::Text(t) => Some(int_chars(x as int) == t@),
                _ => Some(false),
            }
        } else {
            Some(false)
        },
        (Value::Str(s), Value::Val(VType::I(y))) => if s < h.len() {
            match h[s as int] {
                HeapVal::Text(t) => Some(t@ == int_chars(y as int)),
                _ => Some(false),
            }
        } else {
            Some(false)
        },
        (Value::Val(VType::B(x)), Value::Str(s)) => if s < h.len() {
            match h[s as int] {
                HeapVal::Text(t) => Some(bool_chars(x) == t@),
                _ => Some(false),
            }
        } else {
            Some(false)
        },
        (Value::Str(s), Value::Val(VType::B(y))) => if s < h.len() {
            match h[s as int] {
                HeapVal::Text(t) => Some(t@ == bool_chars(y)),
                _ => Some(false),
            }
        } else {
            Some(false)
        },
        (Value::Str(_), Value::Str(_)) => spec_struct_eq(a, b, h, fuel),
        (Value::List(_), Value::List(_)) => spec_struct_eq(a, b, h, fuel),
        (Value::Obj(_), Value::Obj(_)) => spec_struct_eq(a, b, h, fuel),
        (Value::Null, Value::Null) => Some(true),
        _ => Some(false),
    }
}

/// Values the strict relation can compare at all: same kind, and for scalars
/// the same primitive type.
pub open spec fn strict_comparable(a: Value, b: Value) -> bool {
    match (a, b) {
        (Value::Val(VType::I(_)), Value::Val(VType::I(_))) => true,
        (Value::Val(VType::B(_)), Value::Val(VType::B(_))) => true,
        (Value::Ref(_), Value::Ref(_)) => true,
        (Value::Pair(_, _), Value::Pair(_, _)) => true,
        (Value::Str(_), Value::Str(_)) => true,
        (Value::List(_), Value::List(_)) => true,
        (Value::Obj(_), Value::Obj(_)) => true,
        (Value::Dict(_), Value::Dict(_)) => true,
        (Value::Func(_, _), Value::Func(_, _)) => true,
        (Value::Closure(_, _), Value::Closure(_, _)) => true,
        (Value::Null, Value::Null) => true,
        _ => false,
    }
}

/// Strict equality: structural content equality between values of the same
/// kind, a type error for any mismatch of kinds.
pub open spec fn spec_strict_eq(a: Value, b: Value, h: Seq<HeapVal>, fuel: nat) -> Result<
    bool,
    RunCode,
> {
    if !strict_comparable(a, b) {
        Err(RunCode::TypeError)
    } else {
        match spec_struct_eq(a, b, h, fuel) {
            Some(x) => Ok(x),
            None => Err(RunCode::RecursionLimit),
        }
    }
}

/// Structural equality, executable.
pub fn struct_eq_values(a: &Value, b: &Value, heap: &Heap, fuel: u64) -> (r: Result<bool, Error>)
    requires
        valid_value(*a, heap@),
        valid_value(*b, heap@),
        heap_wf(heap@),
    ensures
        spec_struct_eq(*a, *b, heap@, fuel as nat) matches Some(x) ==> r == Ok::<bool, Error>(x),
        spec_struct_eq(*a, *b, heap@, fuel as nat) is None ==> (r matches Err(e) && e.err_code
            == Type::RunTime(RunCode::RecursionLimit)),
    decreases fuel, 0int, 0int,
{
    match (a, b) {
        (Value::Val(p), Value::Val(q)) => Ok(prim_eq(p, q)),
        (Value::Ref(x), Value::Ref(y)) => {
            let px = match heap.get(*x) {
                HeapVal::Prim(p) => *p,
                _ => {
                    proof {
                        assert(false);
                    }
                    VType::B(false)
                },
            };
            let py = match heap.get(*y) {
                HeapVal::Prim(p) => *p,
                _ => {
                    proof {
                        assert(false);
                    }
                    VType::B(false)
                },
            };
            Ok(prim_eq(&px, &py))
        },
        (Value::Pair(a1, a2), Value::Pair(b1, b2)) => {
            if fuel == 0 {
                return Err(Error::new(Type::RunTime(RunCode::RecursionLimit)));
            }
            proof {
                assert(heap@[*a1 as int] is Cell && heap@[*a2 as int] is Cell);
                assert(cell_values_valid(heap@, *a1 as int));
                assert(cell_values_valid(heap@, *a2 as int));
                assert(cell_values_valid(heap@, *b1 as int));
                assert(cell_values_valid(heap@, *b2 as int));
            }
            let va1 = match heap.get(*a1) {
                HeapVal::Cell(v) => v.dup(),
                _ => {
                    proof {
                        assert(false);
                    }
                    Value::Null
                },
            };
            let vb1 = match heap.get(*b1) {
                HeapVal::Cell(v) => v.dup(),
                _ => {
                    proof {
                        assert(false);
                    }
                    Value::Null
                },
            };
            match struct_eq_values(&va1, &vb1, heap, fuel - 1) {
                Ok(true) => {},
                r => {
                    return r;
                },
            }
            let va2 = match heap.get(*a2) {
                HeapVal::Cell(v) => v.dup(),
                _ => {
                    proof {
                        assert(false);
                    }
                    Value::Null
                },
            };
            let vb2 = match heap.get(*b2) {
                HeapVal::Cell(v) => v.dup(),
                _ => {
                    proof {
                        assert(false);
                    }
                    Value::Null
                },
            };
            struct_eq_values(&va2, &vb2, heap, fuel - 1)
        },
        (Value::Str(x), Value::Str(y)) => {
            let sx = match heap.get(*x) {
                HeapVal::Text(s) => s,
                _ => {
                    proof {
                        assert(false);
                    }
                    return Err(Error::new(Type::RunTime(RunCode::TypeError)));
                },
            };
            let sy = match heap.get(*y) {
                HeapVal::Text(s) => s,
                _ => {
                    proof {
                        assert(false);
                    }
                    return Err(Error::new(Type::RunTime(RunCode::TypeError)));
                },
            };
            Ok(str_eq(sx.as_str(), sy.as_str()))
        },
        (Value::List(x), Value::List(y)) => {
            if fuel == 0 {
                return Err(Error::new(Type::RunTime(RunCode::RecursionLimit)));
            }
            proof {
                assert(cell_values_valid(heap@, *x as int));
                assert(cell_values_valid(heap@, *y as int));
            }
            let alen = match heap.get(*x) {
                HeapVal::List(l) => l.len(),
                _ => {
                    proof {
                        assert(false);
                    }
                    0
                },
            };
            let blen = match heap.get(*y) {
                HeapVal::List(l) => l.len(),
                _ => {
                    proof {
                        assert(false);
                    }
                    0
                },
            };
            if alen != blen {
                return Ok(false);
            }
            let ghost la = heap@[*x as int]->List_0@;
            let ghost lb = heap@[*y as int]->List_0@;
            let mut i: usize = 0;
            while i < alen
                invariant
                    i <= alen,
                    valid_value(Value::List(*x), heap@),
                    valid_value(Value::List(*y), heap@),
                    heap_wf(heap@),
                    la == heap@[*x as int]->List_0@,
                    lb == heap@[*y as int]->List_0@,
                    alen == la.len(),
                    alen == lb.len(),
                    fuel >= 1,
                    spec_struct_eq(*a, *b, heap@, fuel as nat) == spec_list_eq(
                        la,
                        lb,
                        heap@,
                        (fuel - 1) as nat,
                        i as int,
                    ),
                decreases alen - i,
            {
                let ea = match heap.get(*x) {
                    HeapVal::List(l) => l[i].dup(),
                    _ => {
                        proof {
                            assert(false);
                        }
                        Value::Null
                    },
                };
                let eb = match heap.get(*y) {
                    HeapVal::List(l) => l[i].dup(),
                    _ => {
                        proof {
                            assert(false);
                        }
                        Value::Null
                    },
                };
                let el_r = struct_eq_values(&ea, &eb, heap, fuel - 1);
                match el_r {
                    Ok(true) => {},
                    r => {
                        proof {
                            assert(ea == la[i as int]);
                            assert(eb == lb[i as int]);
                        }
                        return r;
                    },
                }
                i += 1;
            }
            Ok(true)
        },
        (Value::Obj(x), Value::Obj(y)) => {
            if fuel == 0 {
                return Err(Error::new(Type::RunTime(RunCode::RecursionLimit)));
            }
            proof {
                assert(cell_values_valid(heap@, *x as int));
                assert(cell_values_valid(heap@, *y as int));
            }
            let alen = match heap.get(*x) {
                HeapVal::Obj(o) => o.len(),
                _ => {
                    proof {
                        assert(false);
                    }
                    0
                },
            };
            let blen = match heap.get(*y) {
                HeapVal::Obj(o) => o.len(),
                _ => {
                    proof {
                        assert(false);
                    }
                    0
                },
            };
            if alen != blen {
                return Ok(false);
            }
            let ghost oa = heap@[*x as int]->Obj_0@;
            let ghost ob = heap@[*y as int]->Obj_0@;
            let mut i: usize = 0;
            while i < alen
                invariant
                    i <= alen,
                    valid_value(Value::Obj(*x), heap@),
                    valid_value(Value::Obj(*y), heap@),
                    heap_wf(heap@),
                    oa == heap@[*x as int]->Obj_0@,
                    ob == heap@[*y as int]->Obj_0@,
                    alen == oa.len(),
                    alen == ob.len(),
                    fuel >= 1,
                    spec_struct_eq(*a, *b, heap@, fuel as nat) == spec_obj_eq(
                        oa,
                        ob,
                        heap@,
                        (fuel - 1) as nat,
                        i as int,
                    ),
                decreases alen - i,
            {
                let na = match heap.get(*x) {
                    HeapVal::Obj(o) => o[i].0.clone(),
                    _ => {
                        proof {
                            assert(false);
                        }
                        String::new()
                    },
                };
                let found = match heap.get(*y) {
                    HeapVal::Obj(o) => crate::ops::obj_scan(o, na.as_str()),
                    _ => {
                        proof {
                            assert(false);
                        }
                        None
                    },
                };
                let j = match found {
                    Some(j) => j,
                    None => {
                        proof {
                            assert(crate::ops::obj_find(ob, oa[i as int].0@) == -1);
                        }
                        return Ok(false);
                    },
                };
                let ea = match heap.get(*x) {
                    HeapVal::Obj(o) => o[i].1.dup(),
                    _ => {
                        proof {
                            assert(false);
                        }
                        Value::Null
                    },
                };
                let eb = match heap.get(*y) {
                    HeapVal::Obj(o) => o[j].1.dup(),
                    _ => {
                        proof {
                            assert(false);
                        }
                        Value::Null
                    },
                };
                proof {
                    assert(ea == oa[i as int].1);
                    assert(eb == ob[crate::ops::obj_find(ob, oa[i as int].0@)].1);
                }
                match struct_eq_values(&ea, &eb, heap, fuel - 1) {
                    Ok(true) => {},
                    r => {
                        return r;
                    },
                }
                i += 1;
            }
            Ok(true)
        },
        (Value::Dict(x), Value::Dict(y)) => {
            if fuel == 0 {
                return Err(Error::new(Type::RunTime(RunCode::RecursionLimit)));
            }
            proof {
                assert(cell_values_valid(heap@, *x as int));
                assert(cell_values_valid(heap@, *y as int));
            }
            let alen = match heap.get(*x) {
                HeapVal::Dict(m) => m.len(),
                _ => {
                    proof {
                        assert(false);
                    }
                    0
                },
            };
            let blen = match heap.get(*y) {
                HeapVal::Dict(m) => m.len(),
                _ => {
                    proof {
                        assert(false);
                    }
                    0
                },
            };
            if alen != blen {
                return Ok(false);
            }
            let ghost ma = heap@[*x as int]->Dict_0@;
            let ghost mb = heap@[*y as int]->Dict_0@;
            let mut i: usize = 0;
            while i < alen
                invariant
                    i <= alen,
                    valid_value(Value::Dict(*x), heap@),
                    valid_value(Value::Dict(*y), heap@),
                    heap_wf(heap@),
                    ma == heap@[*x as int]->Dict_0@,
                    mb == heap@[*y as int]->Dict_0@,
                    alen == ma.len(),
                    alen == mb.len(),
                    fuel >= 1,
                    spec_struct_eq(*a, *b, heap@, fuel as nat) == spec_dict_eq(
                        ma,
                        mb,
                        heap@,
                        (fuel - 1) as nat,
                        i as int,
                    ),
                decreases alen - i,
            {
                let ha = match heap.get(*x) {
                    HeapVal::Dict(m) => m[i].0,
                    _ => {
                        proof {
                            assert(false);
                        }
                        0
                    },
                };
                let hb = match heap.get(*y) {
                    HeapVal::Dict(m) => m[i].0,
                    _ => {
                        proof {
                            assert(false);
                        }
                        0
                    },
                };
                if ha != hb {
                    proof {
                        assert(spec_dict_eq(ma, mb, heap@, (fuel - 1) as nat, i as int) == Some::<
                            bool,
                        >(false));
                    }
                    return Ok(false);
                }
                let ka = match heap.get(*x) {
                    HeapVal::Dict(m) => m[i].1.dup(),
                    _ => {
                        proof {
                            assert(false);
                        }
                        Value::Null
                    },
                };
                let kb = match heap.get(*y) {
                    HeapVal::Dict(m) => m[i].1.dup(),
                    _ => {
                        proof {
                            assert(false);
                        }
                        Value::Null
                    },
                };
                match struct_eq_values(&ka, &kb, heap, fuel - 1) {
                    Ok(true) => {},
                    r => {
                        return r;
                    },
                }
                let va = match heap.get(*x) {
                    HeapVal::Dict(m) => m[i].2.dup(),
                    _ => {
                        proof {
                            assert(false);
                        }
                        Value::Null
                    },
                };
                let vb = match heap.get(*y) {
                    HeapVal::Dict(m) => m[i].2.dup(),
                    _ => {
                        proof {
                            assert(false);
                        }
                        Value::Null
                    },
                };
                match struct_eq_values(&va, &vb, heap, fuel - 1) {
                    Ok(true) => {},
                    r => {
                        return r;
                    },
                }
                i += 1;
            }
            Ok(true)
        },
        (Value::Func(p1, n1), Value::Func(p2, n2)) => Ok(
            str_eq(p1.as_str(), p2.as_str()) && str_eq(n1.as_str(), n2.as_str()),
        ),
        (Value::Closure(_, _), Value::Closure(_, _)) => Ok(false),
        (Value::Null, Value::Null) => Ok(true),
        _ => Ok(false),
    }
}

/// Every value inside the cell at `i` is valid: unfolds one step of the heap
/// invariant for the proofs above.
pub open spec fn cell_values_valid(h: Seq<HeapVal>, i: int) -> bool {
    0 <= i < h.len() && crate::heap::cell_ok(h[i], h)
}

fn prim_eq(p: &VType, q: &VType) -> (r: bool)
    ensures
        r == (*p == *q),
{
    match (p, q) {
        (VType::I(x), VType::I(y)) => *x == *y,
        (VType::B(x), VType::B(y)) => *x == *y,
        _ => false,
    }
}

/// Weak (coercing) equality, executable.
pub fn weak_eq_values(a: &Value, b: &Value, heap: &Heap) -> (r: Result<bool, Error>)
    requires
        valid_value(*a, heap@),
        valid_value(*b, heap@),
        heap_wf(heap@),
    ensures
        spec_weak_eq(*a, *b, heap@, EQ_DEPTH as nat) matches Some(x) ==> r == Ok::<bool, Error>(
            x,
        ),
        spec_weak_eq(*a, *b, heap@, EQ_DEPTH as nat) is None ==> (r matches Err(e) && e.err_code
            == Type::RunTime(RunCode::RecursionLimit)),
{
    match (a, b) {
        (Value::Val(VType::I(x)), Value::Val(VType::I(y))) => Ok(*x == *y),
        (Value::Val(VType::I(x)), Value::Val(VType::B(y))) => Ok((*x != 0) == *y),
        (Value::Val(VType::B(x)), Value::Val(VType::I(y))) => Ok(*x == (*y != 0)),
        (Value::Val(VType::B(x)), Value::Val(VType::B(y))) => Ok(*x == *y),
        (Value::Val(VType::I(x)), Value::Str(s)) => Ok(int_text_eq(*x, *s, heap)),
        (Value::Str(s), Value::Val(VType::I(y))) => Ok(int_text_eq(*y, *s, heap)),
        (Value::Val(VType::B(x)), Value::Str(s)) => Ok(bool_text_eq(*x, *s, heap)),
        (Value::Str(s), Value::Val(VType::B(y))) => Ok(bool_text_eq(*y, *s, heap)),
        (Value::Str(_), Value::Str(_)) => struct_eq_values(a, b, heap, EQ_DEPTH),
        (Value::List(_), Value::List(_)) => struct_eq_values(a, b, heap, EQ_DEPTH),
        (Value::Obj(_), Value::Obj(_)) => struct_eq_values(a, b, heap, EQ_DEPTH),
        (Value::Null, Value::Null) => Ok(true),
        _ => Ok(false),
    }
}

fn int_text_eq(x: i64, s: usize, heap: &Heap) -> (r: bool)
    requires
        valid_value(Value::Str(s), heap@),
    ensures
        r == (heap@[s as int] matches HeapVal::Text(t) && int_chars(x as int) == t@),
{
    let rendered = crate::text::i64_to_string(x);
    match heap.get(s) {
        HeapVal::Text(t) => rendered == *t,
        _ => {
            proof {
                assert(false);
            }
            false
        },
    }
}

fn bool_text_eq(x: bool, s: usize, heap: &Heap) -> (r: bool)
    requires
        valid_value(Value::Str(s), heap@),
    ensures
        r == (heap@[s as int] matches HeapVal::Text(t) && bool_chars(x) == t@),
{
    let rendered = crate::text::bool_to_string(x);
    match heap.get(s) {
        HeapVal::Text(t) => rendered == *t,
        _ => {
            proof {
                assert(false);
            }
            false
        },
    }
}

/// Strict equality, executable: a type error unless both values are of the
/// same kind.
pub fn strict_eq_values(a: &Value, b: &Value, heap: &Heap) -> (r: Result<bool, Error>)
    requires
        valid_value(*a, heap@),
        valid_value(*b, heap@),
        heap_wf(heap@),
    ensures
        spec_strict_eq(*a, *b, heap@, EQ_DEPTH as nat) matches Ok(x) ==> r == Ok::<bool, Error>(
            x,
        ),
        spec_strict_eq(*a, *b, heap@, EQ_DEPTH as nat) matches Err(c) ==> (r matches Err(e)
            && e.err_code == Type::RunTime(c)),
{
    let comparable = match (a, b) {
        (Value::Val(VType::I(_)), Value::Val(VType::I(_))) => true,
        (Value::Val(VType::B(_)), Value::Val(VType::B(_))) => true,
        (Value::Ref(_), Value::Ref(_)) => true,
        (Value::Pair(_, _), Value::Pair(_, _)) => true,
        (Value::Str(_), Value::Str(_)) => true,
        (Value::List(_), Value::List(_)) => true,
        (Value::Obj(_), Value::Obj(_)) => true,
        (Value::Dict(_), Value::Dict(_)) => true,
        (Value::Func(_, _), Value::Func(_, _)) => true,
        (Value::Closure(_, _), Value::Closure(_, _)) => true,
        (Value::Null, Value::Null) => true,
        _ => false,
    };
    if comparable {
        struct_eq_values(a, b, heap, EQ_DEPTH)
    } else {
        Err(Error::new(Type::RunTime(RunCode::TypeError)))
    }
}

} // verus!
