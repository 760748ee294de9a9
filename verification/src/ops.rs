//! The expression operators' semantics, one function per operator family.
//!
//! Each function takes already-evaluated operand values and applies the
//! language's typing rules exactly: integer arithmetic wraps (and division
//! reports `DivideByZero`), mixed text operands stringify and concatenate,
//! comparisons demand two integers, and anything outside the table is a
//! `TypeError`.  Negative indices address containers from the end.

use vstd::prelude::*;
use vstd::string::*;
use crate::error::{is_run_err, mserr, Error, RunCode, Type};
use crate::heap::{appended_only, cell_ok, heap_wf, valid_value, Heap, HeapVal};
use crate::hash::{hash_value, spec_hash, HASH_DEPTH};
use crate::text::{bool_chars, int_chars, str_eq};
use crate::value::{ExprRes, HashV, VType, Value};

verus! {

/// The truth value of a condition: booleans literally, integers by the
/// legacy nonzero-is-true rule, anything else a type error.
pub open spec fn spec_truth(v: Value) -> Result<bool, RunCode> {
    match v {
        Value::Val(VType::B(b)) => Ok(b),
        Value::Val(VType::I(i)) => Ok(i != 0),
        _ => Err(RunCode::TypeError),
    }
}

/// Evaluate a condition value to a branch decision.
pub fn cond_truth(v: &Value) -> (r: Result<bool, Error>)
    ensures
        spec_truth(*v) matches Ok(b) ==> r == Ok::<bool, Error>(b),
        spec_truth(*v) is Err ==> (r matches Err(e) && e.err_code == Type::RunTime(
            RunCode::TypeError,
        )),
{
    match v {
        Value::Val(VType::B(b)) => Ok(*b),
        Value::Val(VType::I(i)) => Ok(*i != 0),
        _ => Err(Error::new(Type::RunTime(RunCode::TypeError))),
    }
}

/// Where an index lands in a container of `len` elements: non-negative
/// indices count from the front, negative ones from the end (`len + i`),
/// anything else is out of bounds.
pub open spec fn spec_resolve_index(len: int, i: int) -> Option<int> {
    if 0 <= i < len {
        Some(i)
    } else if -len <= i < 0 {
        Some(len + i)
    } else {
        None
    }
}

/// Resolve a (possibly negative) index against a container length.
pub fn resolve_index(len: usize, i: i64) -> (r: Result<usize, Error>)
    ensures
        spec_resolve_index(len as int, i as int) matches Some(k) ==> r == Ok::<usize, Error>(
            k as usize,
        ),
        spec_resolve_index(len as int, i as int) is None ==> is_run_err_res(
            r,
            RunCode::OutOfBounds,
        ),
{
    if i >= 0 {
        if (i as u64) < (len as u64) {
            Ok(i as usize)
        } else {
            Err(Error::new(Type::RunTime(RunCode::OutOfBounds)))
        }
    } else {
        let m: u64 = ((-(i + 1)) as u64) + 1;
        if m <= (len as u64) {
            Ok(len - (m as usize))
        } else {
            Err(Error::new(Type::RunTime(RunCode::OutOfBounds)))
        }
    }
}

/// Like `is_run_err`, for any result type.
pub open spec fn is_run_err_res<T>(r: Result<T, Error>, c: RunCode) -> bool {
    r matches Err(e) && e.err_code == Type::RunTime(c)
}

/// The first entry with the given key hash, or -1.
pub open spec fn dict_find(m: Seq<(HashV, Value, Value)>, hk: HashV) -> int
    decreases m.len(),
{
    if m.len() == 0 {
        -1
    } else if m.first().0 == hk {
        0
    } else {
        let r = dict_find(m.drop_first(), hk);
        if r < 0 {
            -1
        } else {
            r + 1
        }
    }
}

/// What `dict_find` finds is the first entry with the hash.
pub proof fn lemma_dict_find_props(m: Seq<(HashV, Value, Value)>, hk: HashV)
    ensures
        dict_find(m, hk) == -1 || 0 <= dict_find(m, hk) < m.len(),
        dict_find(m, hk) >= 0 ==> m[dict_find(m, hk)].0 == hk,
        dict_find(m, hk) == -1 ==> forall|k: int| 0 <= k < m.len() ==> (#[trigger] m[k]).0 != hk,
        dict_find(m, hk) >= 0 ==> forall|k: int|
            0 <= k < dict_find(m, hk) ==> (#[trigger] m[k]).0 != hk,
    decreases m.len(),
{
    if m.len() > 0 && m.first().0 != hk {
        lemma_dict_find_props(m.drop_first(), hk);
        assert forall|k: int| 1 <= k < m.len() implies m.drop_first()[k - 1] == #[trigger] m[k] by {}
    }
}

/// An entry with no earlier entry of the same hash is what `dict_find`
/// finds.
pub proof fn lemma_dict_find_at(m: Seq<(HashV, Value, Value)>, hk: HashV, i: int)
    requires
        0 <= i < m.len(),
        m[i].0 == hk,
        forall|k: int| 0 <= k < i ==> (#[trigger] m[k]).0 != hk,
    ensures
        dict_find(m, hk) == i,
    decreases m.len(),
{
    if i > 0 {
        assert(m.first().0 != hk);
        assert forall|k: int| 1 <= k < m.len() implies m.drop_first()[k - 1] == #[trigger] m[k] by {}
        lemma_dict_find_at(m.drop_first(), hk, i - 1);
    }
}

/// Scan a map cell for the entry keyed by `hk`.
pub fn dict_scan(entries: &Vec<(HashV, Value, Value)>, hk: HashV) -> (r: Option<usize>)
    ensures
        r matches Some(k) ==> dict_find(entries@, hk) == k && k < entries@.len()
            && entries@[k as int].0 == hk,
        r is None ==> dict_find(entries@, hk) == -1,
{
    let n = entries.len();
    let mut k: usize = 0;
    while k < n
        invariant
            k <= n,
            n == entries@.len(),
            forall|kk: int| 0 <= kk < k ==> (#[trigger] entries@[kk]).0 != hk,
        decreases n - k,
    {
        if entries[k].0 == hk {
            proof {
                lemma_dict_find_at(entries@, hk, k as int);
            }
            return Some(k);
        }
        k += 1;
    }
    proof {
        lemma_dict_find_props(entries@, hk);
        if dict_find(entries@, hk) >= 0 {
            assert(entries@[dict_find(entries@, hk)].0 == hk);
        }
    }
    None
}

/// The first field with the given name, or -1.
pub open spec fn obj_find(o: Seq<(String, Value)>, n: Seq<char>) -> int
    decreases o.len(),
{
    if o.len() == 0 {
        -1
    } else if o.first().0@ == n {
        0
    } else {
        let r = obj_find(o.drop_first(), n);
        if r < 0 {
            -1
        } else {
            r + 1
        }
    }
}

/// What `obj_find` finds is the first field with the name.
pub proof fn lemma_obj_find_props(o: Seq<(String, Value)>, n: Seq<char>)
    ensures
        obj_find(o, n) == -1 || 0 <= obj_find(o, n) < o.len(),
        obj_find(o, n) >= 0 ==> o[obj_find(o, n)].0@ == n,
        obj_find(o, n) == -1 ==> forall|k: int| 0 <= k < o.len() ==> (#[trigger] o[k]).0@ != n,
        obj_find(o, n) >= 0 ==> forall|k: int|
            0 <= k < obj_find(o, n) ==> (#[trigger] o[k]).0@ != n,
    decreases o.len(),
{
    if o.len() > 0 && o.first().0@ != n {
        lemma_obj_find_props(o.drop_first(), n);
        assert forall|k: int| 1 <= k < o.len() implies o.drop_first()[k - 1] == #[trigger] o[k] by {}
    }
}

/// A field with no earlier field of the same name is what `obj_find` finds.
pub proof fn lemma_obj_find_at(o: Seq<(String, Value)>, n: Seq<char>, i: int)
    requires
        0 <= i < o.len(),
        o[i].0@ == n,
        forall|k: int| 0 <= k < i ==> (#[trigger] o[k]).0@ != n,
    ensures
        obj_find(o, n) == i,
    decreases o.len(),
{
    if i > 0 {
        assert(o.first().0@ != n);
        assert forall|k: int| 1 <= k < o.len() implies o.drop_first()[k - 1] == #[trigger] o[k] by {}
        lemma_obj_find_at(o.drop_first(), n, i - 1);
    }
}

/// Scan an object cell for the field named `n`.
pub fn obj_scan(fields: &Vec<(String, Value)>, n: &str) -> (r: Option<usize>)
    ensures
        r matches Some(k) ==> obj_find(fields@, n@) == k && k < fields@.len()
            && fields@[k as int].0@ == n@,
        r is None ==> obj_find(fields@, n@) == -1,
{
    let count = fields.len();
    let mut k: usize = 0;
    while k < count
        invariant
            k <= count,
            count == fields@.len(),
            forall|kk: int| 0 <= kk < k ==> (#[trigger] fields@[kk]).0@ != n@,
        decreases count - k,
    {
        if str_eq(n, fields[k].0.as_str()) {
            proof {
                lemma_obj_find_at(fields@, n@, k as int);
            }
            return Some(k);
        }
        k += 1;
    }
    proof {
        lemma_obj_find_props(fields@, n@);
        if obj_find(fields@, n@) >= 0 {
            assert(fields@[obj_find(fields@, n@)].0@ == n@);
        }
    }
    None
}

/// Subtraction: integer wrapping subtraction, nothing else.
pub fn sub_values(a: &Value, b: &Value) -> (r: ExprRes)
    ensures
        (*a) matches Value::Val(VType::I(x)) ==> (*b) matches Value::Val(VType::I(y)) ==> r == Ok::<
            Value,
            Error,
        >(Value::Val(VType::I(x.wrapping_sub(y)))),
        !(a is Val && b is Val && a->Val_0 is I && b->Val_0 is I) ==> is_run_err(
            r,
            RunCode::TypeError,
        ),
{
    match (a, b) {
        (Value::Val(VType::I(x)), Value::Val(VType::I(y))) => Ok(
            Value::Val(VType::I(x.wrapping_sub(*y))),
        ),
        _ => mserr(Type::RunTime(RunCode::TypeError)),
    }
}

pub open spec fn abs_int(x: int) -> int {
    if x < 0 {
        -x
    } else {
        x
    }
}

/// Truncating division, the `/` of the language: the magnitude quotient,
/// negated when the signs differ; the one overflowing case wraps.
pub open spec fn spec_div_i64(x: i64, y: i64) -> int
    recommends
        y != 0,
{
    if x == i64::MIN && y == -1 {
        i64::MIN as int
    } else if (x < 0) != (y < 0) {
        -(abs_int(x as int) / abs_int(y as int))
    } else {
        abs_int(x as int) / abs_int(y as int)
    }
}

/// Truncating remainder, the `%` of the language: the magnitude remainder,
/// carrying the dividend's sign.
pub open spec fn spec_rem_i64(x: i64, y: i64) -> int
    recommends
        y != 0,
{
    if x < 0 {
        -(abs_int(x as int) % abs_int(y as int))
    } else {
        abs_int(x as int) % abs_int(y as int)
    }
}

/// The magnitude of an integer, as an unsigned number (total, unlike `abs`).
fn magnitude(x: i64) -> (r: u64)
    ensures
        r == abs_int(x as int),
{
    if x >= 0 {
        x as u64
    } else {
        ((-(x + 1)) as u64) + 1
    }
}

/// Truncating division on integers.
fn div_i64(x: i64, y: i64) -> (r: i64)
    requires
        y != 0,
    ensures
        r == spec_div_i64(x, y),
{
    if y == 1 {
        proof {
            assert(abs_int(x as int) / 1 == abs_int(x as int)) by (nonlinear_arith);
        }
        x
    } else if y == -1 {
        proof {
            assert(abs_int(x as int) / 1 == abs_int(x as int)) by (nonlinear_arith);
        }
        (0i64).wrapping_sub(x)
    } else {
        let xm = magnitude(x);
        let ym = magnitude(y);
        let qm = xm / ym;
        proof {
            assert(qm < 0x8000_0000_0000_0000) by (nonlinear_arith)
                requires
                    qm == xm as int / ym as int,
                    xm <= 0x8000_0000_0000_0000,
                    ym >= 2,
            ;
        }
        if (x < 0) != (y < 0) {
            if qm == 0 {
                proof {
                    assert(0 == spec_div_i64(x, y));
                }
                0
            } else {
                proof {
                    assert(-((qm - 1) as i64) - 1 == spec_div_i64(x, y));
                }
                -(((qm - 1) as i64)) - 1
            }
        } else {
            proof {
                assert(qm as i64 == spec_div_i64(x, y));
            }
            qm as i64
        }
    }
}

/// Truncating remainder on integers.
fn rem_i64(x: i64, y: i64) -> (r: i64)
    requires
        y != 0,
    ensures
        r == spec_rem_i64(x, y),
{
    let xm = magnitude(x);
    let ym = magnitude(y);
    let rm = xm % ym;
    proof {
        assert(rm < ym);
    }
    if x < 0 {
        if rm == 0 {
            0
        } else {
            -(((rm - 1) as i64)) - 1
        }
    } else {
        rm as i64
    }
}

/// Division: truncated integer division; a zero divisor is `DivideByZero`,
/// and the one overflowing case wraps.
pub fn div_values(a: &Value, b: &Value) -> (r: ExprRes)
    ensures
        (*b) matches Value::Val(VType::I(y)) ==> y == 0 ==> is_run_err(r, RunCode::DivideByZero),
        (*a) matches Value::Val(VType::I(x)) ==> (*b) matches Value::Val(VType::I(y)) ==> y != 0
            ==> (r matches Ok(v) && v matches Value::Val(p) && p matches VType::I(z) && z
            == spec_div_i64(x, y)),
        !(b is Val && b->Val_0 is I) ==> is_run_err(r, RunCode::TypeError),
        (*b) matches Value::Val(VType::I(y)) ==> y != 0 ==> !(a is Val && a->Val_0 is I)
            ==> is_run_err(r, RunCode::TypeError),
{
    match b {
        Value::Val(VType::I(y)) => {
            if *y == 0 {
                return mserr(Type::RunTime(RunCode::DivideByZero));
            }
            match a {
                Value::Val(VType::I(x)) => Ok(Value::Val(VType::I(div_i64(*x, *y)))),
                _ => mserr(Type::RunTime(RunCode::TypeError)),
            }
        },
        _ => mserr(Type::RunTime(RunCode::TypeError)),
    }
}

/// Remainder: truncated integer remainder; a zero divisor is
/// `DivideByZero`.
pub fn mod_values(a: &Value, b: &Value) -> (r: ExprRes)
    ensures
        (*a) matches Value::Val(VType::I(x)) ==> (*b) matches Value::Val(VType::I(y)) ==> y != 0
            ==> (r matches Ok(v) && v matches Value::Val(p) && p matches VType::I(z) && z
            == spec_rem_i64(x, y)),
        (*a) matches Value::Val(VType::I(x)) ==> (*b) matches Value::Val(VType::I(y)) ==> y == 0
            ==> is_run_err(r, RunCode::DivideByZero),
        !(a is Val && b is Val && a->Val_0 is I && b->Val_0 is I) ==> is_run_err(
            r,
            RunCode::TypeError,
        ),
{
    match (a, b) {
        (Value::Val(VType::I(x)), Value::Val(VType::I(y))) => {
            if *y == 0 {
                mserr(Type::RunTime(RunCode::DivideByZero))
            } else {
                Ok(Value::Val(VType::I(rem_i64(*x, *y))))
            }
        },
        _ => mserr(Type::RunTime(RunCode::TypeError)),
    }
}

/// Arithmetic negation; the smallest integer wraps to itself.
pub fn neg_value(a: &Value) -> (r: ExprRes)
    ensures
        (*a) matches Value::Val(VType::I(x)) ==> r == Ok::<Value, Error>(
            Value::Val(VType::I((0i64).wrapping_sub(x))),
        ),
        !(a is Val && a->Val_0 is I) ==> is_run_err(r, RunCode::TypeError),
{
    match a {
        Value::Val(VType::I(x)) => Ok(Value::Val(VType::I((0i64).wrapping_sub(*x)))),
        _ => mserr(Type::RunTime(RunCode::TypeError)),
    }
}

/// Logical/bitwise complement: bitwise on integers, logical on booleans.
pub fn not_value(a: &Value) -> (r: ExprRes)
    ensures
        (*a) matches Value::Val(VType::I(x)) ==> (r matches Ok(v) && v matches Value::Val(p) && p
            matches VType::I(z) && z == -1 - x),
        (*a) matches Value::Val(VType::B(x)) ==> r == Ok::<Value, Error>(Value::Val(VType::B(!x))),
        !(a is Val) ==> is_run_err(r, RunCode::TypeError),
{
    match a {
        Value::Val(VType::I(x)) => Ok(Value::Val(VType::I(-1 - *x))),
        Value::Val(VType::B(x)) => Ok(Value::Val(VType::B(!*x))),
        _ => mserr(Type::RunTime(RunCode::TypeError)),
    }
}

/// Conjunction: bitwise on two integers, logical on two booleans.
pub fn and_values(a: &Value, b: &Value) -> (r: ExprRes)
    ensures
        (*a) matches Value::Val(VType::I(x)) ==> (*b) matches Value::Val(VType::I(y)) ==> r == Ok::<
            Value,
            Error,
        >(Value::Val(VType::I(x & y))),
        (*a) matches Value::Val(VType::B(x)) ==> (*b) matches Value::Val(VType::B(y)) ==> r == Ok::<
            Value,
            Error,
        >(Value::Val(VType::B(x && y))),
        !((a is Val && b is Val && a->Val_0 is I && b->Val_0 is I) || (a is Val && b is Val
            && a->Val_0 is B && b->Val_0 is B)) ==> is_run_err(r, RunCode::TypeError),
{
    match (a, b) {
        (Value::Val(VType::I(x)), Value::Val(VType::I(y))) => Ok(Value::Val(VType::I(*x & *y))),
        (Value::Val(VType::B(x)), Value::Val(VType::B(y))) => Ok(Value::Val(VType::B(*x && *y))),
        _ => mserr(Type::RunTime(RunCode::TypeError)),
    }
}

/// Disjunction: bitwise on two integers, logical on two booleans.
pub fn or_values(a: &Value, b: &Value) -> (r: ExprRes)
    ensures
        (*a) matches Value::Val(VType::I(x)) ==> (*b) matches Value::Val(VType::I(y)) ==> r == Ok::<
            Value,
            Error,
        >(Value::Val(VType::I(x | y))),
        (*a) matches Value::Val(VType::B(x)) ==> (*b) matches Value::Val(VType::B(y)) ==> r == Ok::<
            Value,
            Error,
        >(Value::Val(VType::B(x || y))),
        !((a is Val && b is Val && a->Val_0 is I && b->Val_0 is I) || (a is Val && b is Val
            && a->Val_0 is B && b->Val_0 is B)) ==> is_run_err(r, RunCode::TypeError),
{
    match (a, b) {
        (Value::Val(VType::I(x)), Value::Val(VType::I(y))) => Ok(Value::Val(VType::I(*x | *y))),
        (Value::Val(VType::B(x)), Value::Val(VType::B(y))) => Ok(Value::Val(VType::B(*x || *y))),
        _ => mserr(Type::RunTime(RunCode::TypeError)),
    }
}

/// Exclusive disjunction: bitwise on two integers, logical on two booleans.
pub fn xor_values(a: &Value, b: &Value) -> (r: ExprRes)
    ensures
        (*a) matches Value::Val(VType::I(x)) ==> (*b) matches Value::Val(VType::I(y)) ==> r == Ok::<
            Value,
            Error,
        >(Value::Val(VType::I(x ^ y))),
        (*a) matches Value::Val(VType::B(x)) ==> (*b) matches Value::Val(VType::B(y)) ==> r == Ok::<
            Value,
            Error,
        >(Value::Val(VType::B(x != y))),
        !((a is Val && b is Val && a->Val_0 is I && b->Val_0 is I) || (a is Val && b is Val
            && a->Val_0 is B && b->Val_0 is B)) ==> is_run_err(r, RunCode::TypeError),
{
    match (a, b) {
        (Value::Val(VType::I(x)), Value::Val(VType::I(y))) => Ok(Value::Val(VType::I(*x ^ *y))),
        (Value::Val(VType::B(x)), Value::Val(VType::B(y))) => Ok(Value::Val(VType::B(*x != *y))),
        _ => mserr(Type::RunTime(RunCode::TypeError)),
    }
}

/// Which ordering comparison an expression node asks for.
pub enum CmpKind {
    GThan,
    GEq,
    LThan,
    LEq,
}

/// The ordering comparisons: two integers only.
pub open spec fn spec_cmp(k: CmpKind, x: i64, y: i64) -> bool {
    match k {
        CmpKind::GThan => x > y,
        CmpKind::GEq => x >= y,
        CmpKind::LThan => x < y,
        CmpKind::LEq => x <= y,
    }
}

/// Compare two integer values; any other operand kind is a type error.
pub fn cmp_values(k: CmpKind, a: &Value, b: &Value) -> (r: ExprRes)
    ensures
        (*a) matches Value::Val(VType::I(x)) ==> (*b) matches Value::Val(VType::I(y)) ==> r == Ok::<
            Value,
            Error,
        >(Value::Val(VType::B(spec_cmp(k, x, y)))),
        !(a is Val && b is Val && a->Val_0 is I && b->Val_0 is I) ==> is_run_err(
            r,
            RunCode::TypeError,
        ),
{
    match (a, b) {
        (Value::Val(VType::I(x)), Value::Val(VType::I(y))) => {
            let res = match k {
                CmpKind::GThan => *x > *y,
                CmpKind::GEq => *x >= *y,
                CmpKind::LThan => *x < *y,
                CmpKind::LEq => *x <= *y,
            };
            Ok(Value::Val(VType::B(res)))
        },
        _ => mserr(Type::RunTime(RunCode::TypeError)),
    }
}

/// The text a handle points at (empty for anything else).
pub open spec fn text_of(h: Seq<HeapVal>, i: usize) -> Seq<char> {
    if i < h.len() {
        match h[i as int] {
            HeapVal::Text(t) => t@,
            _ => Seq::empty(),
        }
    } else {
        Seq::empty()
    }
}

/// The elements a list handle points at (empty for anything else).
pub open spec fn elems_of(h: Seq<HeapVal>, i: usize) -> Seq<Value> {
    if i < h.len() {
        match h[i as int] {
            HeapVal::List(l) => l@,
            _ => Seq::empty(),
        }
    } else {
        Seq::empty()
    }
}

/// The entries a map handle points at (empty for anything else).
pub open spec fn entries_of(h: Seq<HeapVal>, i: usize) -> Seq<(HashV, Value, Value)> {
    if i < h.len() {
        match h[i as int] {
            HeapVal::Dict(m) => m@,
            _ => Seq::empty(),
        }
    } else {
        Seq::empty()
    }
}

/// The fields an object handle points at (empty for anything else).
pub open spec fn fields_of(h: Seq<HeapVal>, i: usize) -> Seq<(String, Value)> {
    if i < h.len() {
        match h[i as int] {
            HeapVal::Obj(o) => o@,
            _ => Seq::empty(),
        }
    } else {
        Seq::empty()
    }
}

/// The operation made one fresh text cell holding `s` and returned a handle
/// to it.
pub open spec fn text_result(r: ExprRes, h1: Seq<HeapVal>, h2: Seq<HeapVal>, s: Seq<char>) -> bool {
    &&& h2.len() == h1.len() + 1
    &&& appended_only(h2, h1)
    &&& (h2.last() matches HeapVal::Text(t) && t@ == s)
    &&& r == Ok::<Value, Error>(Value::Str(h1.len() as usize))
}

/// The operation made one fresh list cell holding `elems` and returned a
/// handle to it.
pub open spec fn list_result(r: ExprRes, h1: Seq<HeapVal>, h2: Seq<HeapVal>, elems: Seq<Value>) -> bool {
    &&& h2.len() == h1.len() + 1
    &&& appended_only(h2, h1)
    &&& (h2.last() matches HeapVal::List(l) && l@ == elems)
    &&& r == Ok::<Value, Error>(Value::List(h1.len() as usize))
}

/// The operand pairings addition accepts.
pub open spec fn add_applicable(a: Value, b: Value) -> bool {
    match (a, b) {
        (Value::Val(VType::I(_)), Value::Val(VType::I(_))) => true,
        (Value::Val(VType::I(_)), Value::Str(_)) => true,
        (Value::Str(_), Value::Val(VType::I(_))) => true,
        (Value::Str(_), Value::Str(_)) => true,
        (Value::Str(_), Value::Val(VType::B(_))) => true,
        (Value::Val(VType::B(_)), Value::Str(_)) => true,
        (Value::List(_), Value::List(_)) => true,
        _ => false,
    }
}

/// Read a text cell's content.
fn read_text(heap: &Heap, i: usize) -> (r: String)
    requires
        valid_value(Value::Str(i), heap@),
    ensures
        r@ == text_of(heap@, i),
{
    match heap.get(i) {
        HeapVal::Text(t) => t.clone(),
        _ => {
            proof {
                assert(false);
            }
            String::new()
        },
    }
}

/// Addition: wrapping on two integers, stringifying concatenation when text
/// meets a scalar or text, concatenation of two lists; anything else is a
/// type error.
pub fn add_values(a: &Value, b: &Value, heap: &mut Heap) -> (r: ExprRes)
    requires
        valid_value(*a, old(heap)@),
        valid_value(*b, old(heap)@),
        heap_wf(old(heap)@),
    ensures
        appended_only(final(heap)@, old(heap)@),
        heap_wf(final(heap)@),
        r matches Ok(v) ==> valid_value(v, final(heap)@),
        (*a) matches Value::Val(VType::I(x)) ==> (*b) matches Value::Val(VType::I(y)) ==> r
            == Ok::<Value, Error>(Value::Val(VType::I(x.wrapping_add(y)))) && final(heap)@ == old(
            heap,
        )@,
        (*a) matches Value::Val(VType::I(x)) ==> (*b) matches Value::Str(s) ==> text_result(
            r,
            old(heap)@,
            final(heap)@,
            int_chars(x as int) + text_of(old(heap)@, s),
        ),
        (*a) matches Value::Str(s) ==> (*b) matches Value::Val(VType::I(y)) ==> text_result(
            r,
            old(heap)@,
            final(heap)@,
            text_of(old(heap)@, s) + int_chars(y as int),
        ),
        (*a) matches Value::Str(s1) ==> (*b) matches Value::Str(s2) ==> text_result(
            r,
            old(heap)@,
            final(heap)@,
            text_of(old(heap)@, s1) + text_of(old(heap)@, s2),
        ),
        (*a) matches Value::Str(s) ==> (*b) matches Value::Val(VType::B(y)) ==> text_result(
            r,
            old(heap)@,
            final(heap)@,
            text_of(old(heap)@, s) + bool_chars(y),
        ),
        (*a) matches Value::Val(VType::B(x)) ==> (*b) matches Value::Str(s) ==> text_result(
            r,
            old(heap)@,
            final(heap)@,
            bool_chars(x) + text_of(old(heap)@, s),
        ),
        (*a) matches Value::List(x) ==> (*b) matches Value::List(y) ==> list_result(
            r,
            old(heap)@,
            final(heap)@,
            elems_of(old(heap)@, x) + elems_of(old(heap)@, y),
        ),
        !add_applicable(*a, *b) ==> is_run_err(r, RunCode::TypeError) && final(heap)@ == old(
            heap,
        )@,
{
    match (a, b) {
        (Value::Val(VType::I(x)), Value::Val(VType::I(y))) => Ok(
            Value::Val(VType::I(x.wrapping_add(*y))),
        ),
        (Value::Val(VType::I(x)), Value::Str(s)) => {
            let mut t = crate::text::i64_to_string(*x);
            t.append(read_text(heap, *s).as_str());
            let ix = heap.new_cell(HeapVal::Text(t));
            Ok(Value::Str(ix))
        },
        (Value::Str(s), Value::Val(VType::I(y))) => {
            let mut t = read_text(heap, *s);
            t.append(crate::text::i64_to_string(*y).as_str());
            let ix = heap.new_cell(HeapVal::Text(t));
            Ok(Value::Str(ix))
        },
        (Value::Str(s1), Value::Str(s2)) => {
            let mut t = read_text(heap, *s1);
            t.append(read_text(heap, *s2).as_str());
            let ix = heap.new_cell(HeapVal::Text(t));
            Ok(Value::Str(ix))
        },
        (Value::Str(s), Value::Val(VType::B(y))) => {
            let mut t = read_text(heap, *s);
            t.append(crate::text::bool_to_string(*y).as_str());
            let ix = heap.new_cell(HeapVal::Text(t));
            Ok(Value::Str(ix))
        },
        (Value::Val(VType::B(x)), Value::Str(s)) => {
            let mut t = crate::text::bool_to_string(*x);
            t.append(read_text(heap, *s).as_str());
            let ix = heap.new_cell(HeapVal::Text(t));
            Ok(Value::Str(ix))
        },
        (Value::List(x), Value::List(y)) => {
            let mut elems = match heap.get(*x) {
                HeapVal::List(l) => crate::value::dup_values(l),
                _ => {
                    proof {
                        assert(false);
                    }
                    Vec::new()
                },
            };
            let mut second = match heap.get(*y) {
                HeapVal::List(l) => crate::value::dup_values(l),
                _ => {
                    proof {
                        assert(false);
                    }
                    Vec::new()
                },
            };
            elems.append(&mut second);
            proof {
                assert(cell_ok(heap@[*x as int], heap@));
                assert(cell_ok(heap@[*y as int], heap@));
                assert forall|k: int| 0 <= k < elems@.len() implies valid_value(
                    #[trigger] elems@[k],
                    heap@,
                ) by {
                    if k < elems_of(heap@, *x).len() {
                        assert(elems@[k] == elems_of(heap@, *x)[k]);
                    } else {
                        assert(elems@[k] == elems_of(heap@, *y)[k - elems_of(heap@, *x).len()]);
                    }
                }
            }
            let ix = heap.new_cell(HeapVal::List(elems));
            Ok(Value::List(ix))
        },
        _ => mserr(Type::RunTime(RunCode::TypeError)),
    }
}

/// `s` repeated `n` times.
pub open spec fn repeat_chars(s: Seq<char>, n: nat) -> Seq<char>
    decreases n,
{
    if n == 0 {
        Seq::empty()
    } else {
        repeat_chars(s, (n - 1) as nat) + s
    }
}

/// `s` repeated `n` times.
pub open spec fn repeat_vals(s: Seq<Value>, n: nat) -> Seq<Value>
    decreases n,
{
    if n == 0 {
        Seq::empty()
    } else {
        repeat_vals(s, (n - 1) as nat) + s
    }
}

/// Multiplication: wrapping on two integers; text or a list times a
/// non-negative integer repeats it (a negative count is rejected); anything
/// else is a type error.
pub fn mul_values(a: &Value, b: &Value, heap: &mut Heap) -> (r: ExprRes)
    requires
        valid_value(*a, old(heap)@),
        valid_value(*b, old(heap)@),
        heap_wf(old(heap)@),
    ensures
        appended_only(final(heap)@, old(heap)@),
        heap_wf(final(heap)@),
        r matches Ok(v) ==> valid_value(v, final(heap)@),
        (*a) matches Value::Val(VType::I(x)) ==> (*b) matches Value::Val(VType::I(y)) ==> r
            == Ok::<Value, Error>(Value::Val(VType::I(x.wrapping_mul(y)))) && final(heap)@ == old(
            heap,
        )@,
        (*a) matches Value::Str(s) ==> (*b) matches Value::Val(VType::I(y)) ==> y >= 0
            ==> text_result(
            r,
            old(heap)@,
            final(heap)@,
            repeat_chars(text_of(old(heap)@, s), y as nat),
        ),
        (*a) matches Value::List(x) ==> (*b) matches Value::Val(VType::I(y)) ==> y >= 0
            ==> list_result(
            r,
            old(heap)@,
            final(heap)@,
            repeat_vals(elems_of(old(heap)@, x), y as nat),
        ),
        (*a) matches Value::Str(_) ==> (*b) matches Value::Val(VType::I(y)) ==> y < 0 ==> (
        is_run_err(r, RunCode::InvalidNegative) && final(heap)@ == old(heap)@),
        (*a) matches Value::List(_) ==> (*b) matches Value::Val(VType::I(y)) ==> y < 0 ==> (
        is_run_err(r, RunCode::InvalidNegative) && final(heap)@ == old(heap)@),
        !mul_applicable(*a, *b) ==> is_run_err(r, RunCode::TypeError) && final(heap)@ == old(
            heap,
        )@,
{
    match (a, b) {
        (Value::Val(VType::I(x)), Value::Val(VType::I(y))) => Ok(
            Value::Val(VType::I(x.wrapping_mul(*y))),
        ),
        (Value::Str(s), Value::Val(VType::I(y))) => {
            if *y < 0 {
                return mserr(Type::RunTime(RunCode::InvalidNegative));
            }
            let src = read_text(heap, *s);
            let count = *y as u64;
            let mut t = String::new();
            let mut k: u64 = 0;
            while k < count
                invariant
                    k <= count,
                    t@ =~= repeat_chars(src@, k as nat),
                decreases count - k,
            {
                t.append(src.as_str());
                k += 1;
            }
            let ix = heap.new_cell(HeapVal::Text(t));
            Ok(Value::Str(ix))
        },
        (Value::List(x), Value::Val(VType::I(y))) => {
            if *y < 0 {
                return mserr(Type::RunTime(RunCode::InvalidNegative));
            }
            let ghost src = elems_of(heap@, *x);
            proof {
                assert(cell_ok(heap@[*x as int], heap@));
            }
            let count = *y as u64;
            let mut elems: Vec<Value> = Vec::new();
            let mut k: u64 = 0;
            while k < count
                invariant
                    k <= count,
                    valid_value(Value::List(*x), heap@),
                    src == elems_of(heap@, *x),
                    elems@ =~= repeat_vals(src, k as nat),
                decreases count - k,
            {
                let mut part = match heap.get(*x) {
                    HeapVal::List(l) => crate::value::dup_values(l),
                    _ => {
                        proof {
                            assert(false);
                        }
                        Vec::new()
                    },
                };
                elems.append(&mut part);
                proof {
                    assert(elems@ =~= repeat_vals(src, (k + 1) as nat));
                }
                k += 1;
            }
            proof {
                assert(cell_ok(heap@[*x as int], heap@));
                lemma_repeat_vals_valid(src, count as nat, heap@);
            }
            let ix = heap.new_cell(HeapVal::List(elems));
            Ok(Value::List(ix))
        },
        _ => mserr(Type::RunTime(RunCode::TypeError)),
    }
}

/// The operand pairings multiplication accepts.
pub open spec fn mul_applicable(a: Value, b: Value) -> bool {
    match (a, b) {
        (Value::Val(VType::I(_)), Value::Val(VType::I(_))) => true,
        (Value::Str(_), Value::Val(VType::I(_))) => true,
        (Value::List(_), Value::Val(VType::I(_))) => true,
        _ => false,
    }
}

/// Repetition keeps every element valid.
proof fn lemma_repeat_vals_valid(s: Seq<Value>, n: nat, h: Seq<HeapVal>)
    requires
        forall|i: int| 0 <= i < s.len() ==> valid_value(#[trigger] s[i], h),
    ensures
        forall|i: int| 0 <= i < repeat_vals(s, n).len() ==> valid_value(
            #[trigger] repeat_vals(s, n)[i],
            h,
        ),
    decreases n,
{
    if n > 0 {
        lemma_repeat_vals_valid(s, (n - 1) as nat, h);
        assert forall|i: int| 0 <= i < repeat_vals(s, n).len() implies valid_value(
            #[trigger] repeat_vals(s, n)[i],
            h,
        ) by {
            if i < repeat_vals(s, (n - 1) as nat).len() {
                assert(repeat_vals(s, n)[i] == repeat_vals(s, (n - 1) as nat)[i]);
            } else {
                assert(repeat_vals(s, n)[i] == s[i - repeat_vals(s, (n - 1) as nat).len()]);
            }
        }
    }
}

/// Indexing: a list by a (possibly negative) integer position, a map by any
/// hashable key; out-of-range positions and absent keys are `OutOfBounds`.
pub fn index_value(base: &Value, idx: &Value, heap: &Heap) -> (r: ExprRes)
    requires
        valid_value(*base, heap@),
        valid_value(*idx, heap@),
        heap_wf(heap@),
    ensures
        r matches Ok(v) ==> valid_value(v, heap@),
        (*base) matches Value::List(l) ==> (*idx) matches Value::Val(p) ==> p matches VType::I(i)
            ==> (spec_resolve_index(elems_of(heap@, l).len() as int, i as int) matches Some(k)
            ==> r == Ok::<Value, Error>(elems_of(heap@, l)[k])),
        (*base) matches Value::List(l) ==> (*idx) matches Value::Val(p) ==> p matches VType::I(i)
            ==> (spec_resolve_index(elems_of(heap@, l).len() as int, i as int) is None
            ==> is_run_err(r, RunCode::OutOfBounds)),
        (*base) matches Value::List(_) ==> !((*idx) is Val && (*idx)->Val_0 is I) ==> is_run_err(
            r,
            RunCode::TypeError,
        ),
        (*base) matches Value::Dict(m) ==> (spec_hash(*idx, heap@, HASH_DEPTH as nat) matches Err(
            c,
        ) ==> is_run_err(r, c)),
        (*base) matches Value::Dict(m) ==> (spec_hash(*idx, heap@, HASH_DEPTH as nat) matches Ok(
            hk,
        ) ==> (dict_find(entries_of(heap@, m), hk) == -1 ==> is_run_err(r, RunCode::OutOfBounds))),
        (*base) matches Value::Dict(m) ==> (spec_hash(*idx, heap@, HASH_DEPTH as nat) matches Ok(
            hk,
        ) ==> (dict_find(entries_of(heap@, m), hk) >= 0 ==> r == Ok::<Value, Error>(
            entries_of(heap@, m)[dict_find(entries_of(heap@, m), hk)].2,
        ))),
        !((*base) is List || (*base) is Dict) ==> is_run_err(r, RunCode::TypeError),
{
    match base {
        Value::List(l) => {
            match idx {
                Value::Val(VType::I(i)) => {
                    let len = match heap.get(*l) {
                        HeapVal::List(el) => el.len(),
                        _ => {
                            proof {
                                assert(false);
                            }
                            0
                        },
                    };
                    let k = match resolve_index(len, *i) {
                        Ok(k) => k,
                        Err(e) => {
                            return Err(e);
                        },
                    };
                    proof {
                        assert(cell_ok(heap@[*l as int], heap@));
                    }
                    match heap.get(*l) {
                        HeapVal::List(el) => {
                            proof {
                                assert(valid_value(el@[k as int], heap@));
                            }
                            Ok(el[k].dup())
                        },
                        _ => {
                            proof {
                                assert(false);
                            }
                            mserr(Type::RunTime(RunCode::TypeError))
                        },
                    }
                },
                _ => mserr(Type::RunTime(RunCode::TypeError)),
            }
        },
        Value::Dict(m) => {
            let hk = match hash_value(idx, heap) {
                Ok(hk) => hk,
                Err(e) => {
                    return Err(e);
                },
            };
            proof {
                assert(cell_ok(heap@[*m as int], heap@));
            }
            match heap.get(*m) {
                HeapVal::Dict(entries) => {
                    match dict_scan(entries, hk) {
                        Some(k) => {
                            proof {
                                assert(heap@[*m as int] == HeapVal::Dict(*entries));
                                assert(cell_ok(HeapVal::Dict(*entries), heap@));
                                assert(valid_value(entries@[k as int].1, heap@) && valid_value(
                                    entries@[k as int].2,
                                    heap@,
                                ));
                            }
                            Ok(entries[k].2.dup())
                        },
                        None => mserr(Type::RunTime(RunCode::OutOfBounds)),
                    }
                },
                _ => {
                    proof {
                        assert(false);
                    }
                    mserr(Type::RunTime(RunCode::TypeError))
                },
            }
        },
        _ => mserr(Type::RunTime(RunCode::TypeError)),
    }
}

/// Field access: the named field of an object; `FieldNotFound` when absent,
/// a type error on any other base value.
pub fn access_value(base: &Value, name: &str, heap: &Heap) -> (r: ExprRes)
    requires
        valid_value(*base, heap@),
        heap_wf(heap@),
    ensures
        r matches Ok(v) ==> valid_value(v, heap@),
        (*base) matches Value::Obj(o) ==> (obj_find(fields_of(heap@, o), name@) >= 0 ==> r
            == Ok::<Value, Error>(fields_of(heap@, o)[obj_find(fields_of(heap@, o), name@)].1)),
        (*base) matches Value::Obj(o) ==> (obj_find(fields_of(heap@, o), name@) == -1
            ==> is_run_err(r, RunCode::FieldNotFound)),
        !((*base) is Obj) ==> is_run_err(r, RunCode::TypeError),
{
    match base {
        Value::Obj(o) => {
            proof {
                assert(cell_ok(heap@[*o as int], heap@));
            }
            match heap.get(*o) {
                HeapVal::Obj(fields) => {
                    match obj_scan(fields, name) {
                        Some(k) => Ok(fields[k].1.dup()),
                        None => mserr(Type::RunTime(RunCode::FieldNotFound)),
                    }
                },
                _ => {
                    proof {
                        assert(false);
                    }
                    mserr(Type::RunTime(RunCode::TypeError))
                },
            }
        },
        _ => mserr(Type::RunTime(RunCode::TypeError)),
    }
}

/// The integers from `start` (inclusive) to `end` (exclusive) in steps of
/// `step`, as list elements.
pub open spec fn range_vals(start: int, step: int, end: int) -> Seq<Value>
    decreases (if start < end { end - start } else { 0int }),
{
    if start >= end || step <= 0 {
        Seq::empty()
    } else {
        seq![Value::Val(VType::I(start as i64))] + range_vals(start + step, step, end)
    }
}

fn sat_add(cur: i64, step: i64) -> (r: i64)
    requires
        step >= 1,
    ensures
        cur + step > i64::MAX ==> r == i64::MAX,
        cur + step <= i64::MAX ==> r == cur + step,
{
    if cur > 0 && step > i64::MAX - cur {
        i64::MAX
    } else {
        cur + step
    }
}

/// Build the list a range expression denotes: `start` must lie below `end`
/// and the step must be positive, else the range is invalid.
pub fn build_range(start: i64, step: i64, end: i64, heap: &mut Heap) -> (r: ExprRes)
    requires
        heap_wf(old(heap)@),
    ensures
        appended_only(final(heap)@, old(heap)@),
        heap_wf(final(heap)@),
        r matches Ok(v) ==> valid_value(v, final(heap)@),
        start >= end || step <= 0 ==> is_run_err(r, RunCode::InvalidRange) && final(heap)@ == old(
            heap,
        )@,
        start < end && step >= 1 ==> list_result(
            r,
            old(heap)@,
            final(heap)@,
            range_vals(start as int, step as int, end as int),
        ),
{
    if start >= end || step <= 0 {
        return mserr(Type::RunTime(RunCode::InvalidRange));
    }
    let mut elems: Vec<Value> = Vec::new();
    let mut cur = start;
    while cur < end
        invariant
            step >= 1,
            end <= i64::MAX,
            elems@ + range_vals(cur as int, step as int, end as int) =~= range_vals(
                start as int,
                step as int,
                end as int,
            ),
            forall|i: int| 0 <= i < elems@.len() ==> valid_value(#[trigger] elems@[i], old(heap)@),
        decreases (if cur < end { end - cur } else { 0int }),
    {
        elems.push(Value::Val(VType::I(cur)));
        let next = sat_add(cur, step);
        proof {
            assert(range_vals(cur as int, step as int, end as int) =~= seq![
                Value::Val(VType::I(cur)),
            ] + range_vals(cur as int + step as int, step as int, end as int));
            if cur + step > i64::MAX {
                assert(range_vals(cur as int + step as int, step as int, end as int)
                    =~= Seq::empty());
                assert(range_vals(next as int, step as int, end as int) =~= Seq::empty());
            }
            assert(elems@ + range_vals(next as int, step as int, end as int) =~= range_vals(
                start as int,
                step as int,
                end as int,
            ));
        }
        cur = next;
    }
    proof {
        assert(range_vals(cur as int, step as int, end as int) =~= Seq::empty());
        assert(elems@ =~= range_vals(start as int, step as int, end as int));
    }
    let ix = heap.new_cell(HeapVal::List(elems));
    Ok(Value::List(ix))
}


} // verus!
