//! The built-in "core" methods on primitive and container values.
//!
//! A core call dispatches on the method name, then on the receiver's runtime
//! type and the argument count: the wrong receiver is `CoreBaseTypeError`,
//! the wrong arity `CoreWrongNumberOfArguments`, a bad argument
//! `CoreArgumentTypeError`, an unknown name `CoreFunctionNotFound`.
//! (`to_float`, `floor`, `ceil`, `round` belong to a float primitive, which
//! is outside this runtime's value model; they are unknown names here.)

use vstd::prelude::*;
use vstd::pervasive::VecAdditionalExecFns;
use crate::compare::{spec_struct_eq, struct_eq_values, EQ_DEPTH};
use crate::error::{is_run_err, mserr, Error, RunCode, Type};
use crate::hash::{hash_value, spec_hash, HASH_DEPTH};
use crate::heap::{
    appended_only, cell_ok, heap_extends, heap_wf, kind_of, lemma_appended_only_extends,
    lemma_valid_value_extends, lemma_wf_update, valid_value, Heap, HeapVal,
};
use crate::ops::{dict_find, elems_of, entries_of, fields_of, obj_find, text_of, text_result};
use crate::text::{bool_chars, int_chars, str_eq, string_pop};
use crate::value::{dup_values, ExprRes, HashV, VType, Value};

verus! {

/// Every value of the argument vector is a valid handle.
pub open spec fn vals_valid(vs: Seq<Value>, h: Seq<HeapVal>) -> bool {
    forall|k: int| 0 <= k < vs.len() ==> valid_value(#[trigger] vs[k], h)
}

/// `to_string`: the textual form of a scalar (through a shared cell too), as
/// a fresh text cell.
pub fn core_to_string(base: Value, args: &Vec<Value>, heap: &mut Heap) -> (r: ExprRes)
    requires
        valid_value(base, old(heap)@),
        heap_wf(old(heap)@),
    ensures
        appended_only(final(heap)@, old(heap)@),
        heap_wf(final(heap)@),
        r matches Ok(v) ==> valid_value(v, final(heap)@),
        args@.len() != 0 ==> is_run_err(r, RunCode::CoreWrongNumberOfArguments) && final(heap)@
            == old(heap)@,
        args@.len() == 0 ==> (base matches Value::Val(VType::I(i)) ==> text_result(
            r,
            old(heap)@,
            final(heap)@,
            int_chars(i as int),
        )),
        args@.len() == 0 ==> (base matches Value::Val(VType::B(b)) ==> text_result(
            r,
            old(heap)@,
            final(heap)@,
            bool_chars(b),
        )),
        args@.len() == 0 ==> (base matches Value::Ref(c) ==> (old(heap)@[c as int] matches
        HeapVal::Prim(VType::I(i)) ==> text_result(r, old(heap)@, final(heap)@, int_chars(i as int)))),
        args@.len() == 0 ==> (base matches Value::Ref(c) ==> (old(heap)@[c as int] matches
        HeapVal::Prim(VType::B(b)) ==> text_result(r, old(heap)@, final(heap)@, bool_chars(b)))),
        args@.len() == 0 && !(base is Val || base is Ref) ==> is_run_err(
            r,
            RunCode::CoreBaseTypeError,
        ) && final(heap)@ == old(heap)@,
{
    if args.len() != 0 {
        return mserr(Type::RunTime(RunCode::CoreWrongNumberOfArguments));
    }
    let p = match &base {
        Value::Val(p) => *p,
        Value::Ref(c) => {
            match heap.get(*c) {
                HeapVal::Prim(p) => *p,
                _ => {
                    proof {
                        assert(false);
                    }
                    VType::B(false)
                },
            }
        },
        _ => {
            return mserr(Type::RunTime(RunCode::CoreBaseTypeError));
        },
    };
    let t = match p {
        VType::I(i) => crate::text::i64_to_string(i),
        VType::B(b) => crate::text::bool_to_string(b),
    };
    let ix = heap.new_cell(HeapVal::Text(t));
    Ok(Value::Str(ix))
}

/// `abs`: the magnitude of an integer (through a shared cell too); the
/// smallest integer wraps to itself.
pub fn core_abs(base: Value, args: &Vec<Value>, heap: &Heap) -> (r: ExprRes)
    requires
        valid_value(base, heap@),
        heap_wf(heap@),
    ensures
        r matches Ok(v) ==> valid_value(v, heap@),
        args@.len() != 0 ==> is_run_err(r, RunCode::CoreWrongNumberOfArguments),
        args@.len() == 0 ==> (base matches Value::Val(VType::I(i)) ==> (r matches Ok(v) && v
            matches Value::Val(p) && p matches VType::I(z) && (i == i64::MIN ==> z == i64::MIN) && (
        i != i64::MIN ==> z == crate::ops::abs_int(i as int)))),
        args@.len() == 0 ==> (base matches Value::Ref(c) ==> (heap@[c as int] matches HeapVal::Prim(
            VType::I(i),
        ) ==> (r matches Ok(v) && v matches Value::Val(p) && p matches VType::I(z) && (i
            == i64::MIN ==> z == i64::MIN) && (i != i64::MIN ==> z == crate::ops::abs_int(
            i as int,
        ))))),
        args@.len() == 0 ==> (base matches Value::Val(VType::B(_)) ==> is_run_err(
            r,
            RunCode::CoreBaseTypeError,
        )),
        args@.len() == 0 ==> (base matches Value::Ref(c) ==> (heap@[c as int] matches HeapVal::Prim(
            VType::B(_),
        ) ==> is_run_err(r, RunCode::CoreBaseTypeError))),
        args@.len() == 0 && !(base is Val || base is Ref) ==> is_run_err(
            r,
            RunCode::CoreBaseTypeError,
        ),
{
    if args.len() != 0 {
        return mserr(Type::RunTime(RunCode::CoreWrongNumberOfArguments));
    }
    let p = match &base {
        Value::Val(p) => *p,
        Value::Ref(c) => {
            match heap.get(*c) {
                HeapVal::Prim(p) => *p,
                _ => {
                    proof {
                        assert(false);
                    }
                    VType::B(false)
                },
            }
        },
        _ => {
            return mserr(Type::RunTime(RunCode::CoreBaseTypeError));
        },
    };
    match p {
        VType::I(i) => {
            if i < 0 {
                Ok(Value::Val(VType::I((0i64).wrapping_sub(i))))
            } else {
                Ok(Value::Val(VType::I(i)))
            }
        },
        VType::B(_) => mserr(Type::RunTime(RunCode::CoreBaseTypeError)),
    }
}

/// `len`: the number of elements of a list.
pub fn core_len(base: Value, args: &Vec<Value>, heap: &Heap) -> (r: ExprRes)
    requires
        valid_value(base, heap@),
        heap_wf(heap@),
    ensures
        r matches Ok(v) ==> valid_value(v, heap@),
        args@.len() != 0 ==> is_run_err(r, RunCode::CoreWrongNumberOfArguments),
        args@.len() == 0 ==> (base matches Value::List(l) ==> (elems_of(heap@, l).len()
            <= i64::MAX ==> r == Ok::<Value, Error>(
            Value::Val(VType::I(elems_of(heap@, l).len() as i64)),
        ))),
        args@.len() == 0 && !(base is List) ==> is_run_err(r, RunCode::CoreBaseTypeError),
{
    if args.len() != 0 {
        return mserr(Type::RunTime(RunCode::CoreWrongNumberOfArguments));
    }
    match &base {
        Value::List(l) => {
            let n = match heap.get(*l) {
                HeapVal::List(el) => el.len(),
                _ => {
                    proof {
                        assert(false);
                    }
                    0
                },
            };
            if (n as u64) <= 0x7fff_ffff_ffff_ffffu64 {
                Ok(Value::Val(VType::I(n as i64)))
            } else {
                mserr(Type::RunTime(RunCode::CoreBaseTypeError))
            }
        },
        _ => mserr(Type::RunTime(RunCode::CoreBaseTypeError)),
    }
}

/// Element-for-element copy of an object's fields.
fn dup_fields(v: &Vec<(String, Value)>) -> (r: Vec<(String, Value)>)
    ensures
        r@.len() == v@.len(),
        forall|k: int|
            0 <= k < v@.len() ==> (#[trigger] r@[k]).0@ == v@[k].0@ && r@[k].1 == v@[k].1,
{
    let n = v.len();
    let mut out: Vec<(String, Value)> = Vec::new();
    let mut i: usize = 0;
    while i < n
        invariant
            i <= n,
            n == v@.len(),
            out@.len() == i,
            forall|k: int|
                0 <= k < i ==> (#[trigger] out@[k]).0@ == v@[k].0@ && out@[k].1 == v@[k].1,
        decreases n - i,
    {
        out.push((v[i].0.clone(), v[i].1.dup()));
        i += 1;
    }
    out
}

/// Element-for-element copy of a map's entries.
fn dup_entries(v: &Vec<(HashV, Value, Value)>) -> (r: Vec<(HashV, Value, Value)>)
    ensures
        r@ == v@,
{
    let n = v.len();
    let mut out: Vec<(HashV, Value, Value)> = Vec::new();
    let mut i: usize = 0;
    while i < n
        invariant
            i <= n,
            n == v@.len(),
            out@ =~= v@.take(i as int),
        decreases n - i,
    {
        out.push((v[i].0, v[i].1.dup(), v[i].2.dup()));
        proof {
            assert(out@ =~= v@.take(i as int + 1));
        }
        i += 1;
    }
    proof {
        assert(v@.take(n as int) =~= v@);
    }
    out
}

/// `clone`: a one-level deep copy — a fresh cell with the same content; the
/// elements inside keep their handles.  Shared primitives snapshot to plain
/// ones.  Pairs, functions and closures cannot be cloned.
pub fn core_clone(base: Value, args: &Vec<Value>, heap: &mut Heap) -> (r: ExprRes)
    requires
        valid_value(base, old(heap)@),
        heap_wf(old(heap)@),
    ensures
        appended_only(final(heap)@, old(heap)@),
        heap_wf(final(heap)@),
        r matches Ok(v) ==> valid_value(v, final(heap)@),
        args@.len() != 0 ==> is_run_err(r, RunCode::CoreWrongNumberOfArguments) && final(heap)@
            == old(heap)@,
        args@.len() == 0 ==> (base matches Value::Val(p) ==> r == Ok::<Value, Error>(
            Value::Val(p),
        ) && final(heap)@ == old(heap)@),
        args@.len() == 0 ==> (base matches Value::Ref(c) ==> (old(heap)@[c as int] matches
        HeapVal::Prim(p) ==> r == Ok::<Value, Error>(Value::Val(p)) && final(heap)@ == old(heap)@)),
        args@.len() == 0 ==> (base matches Value::Str(s) ==> text_result(
            r,
            old(heap)@,
            final(heap)@,
            text_of(old(heap)@, s),
        )),
        args@.len() == 0 ==> (base matches Value::List(l) ==> crate::ops::list_result(
            r,
            old(heap)@,
            final(heap)@,
            elems_of(old(heap)@, l),
        )),
        args@.len() == 0 ==> (base matches Value::Obj(o) ==> (final(heap)@.len() == old(heap)@.len() + 1 && r == Ok::<Value, Error>(Value::Obj(old(heap)@.len() as usize)) && (final(heap)@.last() matches HeapVal::Obj(fs) && fs@.len() == fields_of(old(heap)@, o).len() && (
        forall|k: int|
            0 <= k < fs@.len() ==> (#[trigger] fs@[k]).0@ == fields_of(old(heap)@, o)[k].0@
                && fs@[k].1 == fields_of(old(heap)@, o)[k].1)))),
        args@.len() == 0 ==> (base matches Value::Dict(m) ==> (final(heap)@.len() == old(heap)@.len() + 1 && r == Ok::<Value, Error>(Value::Dict(old(heap)@.len() as usize)) && (final(heap)@.last() matches HeapVal::Dict(es) && es@ == entries_of(old(heap)@, m)))),
        args@.len() == 0 && !(base is Val || base is Ref || base is Str || base is List || base
            is Obj || base is Dict) ==> is_run_err(r, RunCode::CoreBaseTypeError) && final(heap)@
            == old(heap)@,
{
    if args.len() != 0 {
        return mserr(Type::RunTime(RunCode::CoreWrongNumberOfArguments));
    }
    match &base {
        Value::Val(p) => Ok(Value::Val(*p)),
        Value::Ref(c) => {
            match heap.get(*c) {
                HeapVal::Prim(p) => Ok(Value::Val(*p)),
                _ => {
                    proof {
                        assert(false);
                    }
                    mserr(Type::RunTime(RunCode::CoreBaseTypeError))
                },
            }
        },
        Value::Str(s) => {
            let t = match heap.get(*s) {
                HeapVal::Text(t) => t.clone(),
                _ => {
                    proof {
                        assert(false);
                    }
                    String::new()
                },
            };
            let ix = heap.new_cell(HeapVal::Text(t));
            Ok(Value::Str(ix))
        },
        Value::List(l) => {
            let elems = match heap.get(*l) {
                HeapVal::List(el) => dup_values(el),
                _ => {
                    proof {
                        assert(false);
                    }
                    Vec::new()
                },
            };
            proof {
                assert(cell_ok(old(heap)@[*l as int], old(heap)@));
            }
            let ix = heap.new_cell(HeapVal::List(elems));
            Ok(Value::List(ix))
        },
        Value::Obj(o) => {
            let fields = match heap.get(*o) {
                HeapVal::Obj(fs) => dup_fields(fs),
                _ => {
                    proof {
                        assert(false);
                    }
                    Vec::new()
                },
            };
            proof {
                assert(cell_ok(old(heap)@[*o as int], old(heap)@));
                assert forall|k: int| 0 <= k < fields@.len() implies valid_value(
                    (#[trigger] fields@[k]).1,
                    old(heap)@,
                ) by {
                    assert(fields@[k].1 == fields_of(old(heap)@, *o)[k].1);
                }
            }
            let ix = heap.new_cell(HeapVal::Obj(fields));
            Ok(Value::Obj(ix))
        },
        Value::Dict(m) => {
            let entries = match heap.get(*m) {
                HeapVal::Dict(es) => dup_entries(es),
                _ => {
                    proof {
                        assert(false);
                    }
                    Vec::new()
                },
            };
            proof {
                assert(cell_ok(old(heap)@[*m as int], old(heap)@));
            }
            let ix = heap.new_cell(HeapVal::Dict(entries));
            Ok(Value::Dict(ix))
        },
        _ => mserr(Type::RunTime(RunCode::CoreBaseTypeError)),
    }
}

/// `concat`: extend a text or list cell in place with another of the same
/// kind; every holder of the cell observes the growth.
pub fn core_concat(base: Value, args: &Vec<Value>, heap: &mut Heap) -> (r: ExprRes)
    requires
        valid_value(base, old(heap)@),
        vals_valid(args@, old(heap)@),
        heap_wf(old(heap)@),
    ensures
        heap_extends(final(heap)@, old(heap)@),
        heap_wf(final(heap)@),
        final(heap)@.len() == old(heap)@.len(),
        r matches Ok(v) ==> valid_value(v, final(heap)@),
        args@.len() != 1 ==> is_run_err(r, RunCode::CoreWrongNumberOfArguments) && final(heap)@
            == old(heap)@,
        args@.len() == 1 ==> (base matches Value::Str(s) ==> (args@[0] matches Value::Str(s2) ==> (r
            == Ok::<Value, Error>(Value::Null) && (final(heap)@[s as int] matches HeapVal::Text(t)
            && t@ == text_of(old(heap)@, s) + text_of(old(heap)@, s2)) && (forall|k: int|
            0 <= k < old(heap)@.len() && k != s ==> final(heap)@[k] == old(heap)@[k])))),
        args@.len() == 1 ==> (base matches Value::Str(_) ==> !(args@[0] is Str) ==> is_run_err(
            r,
            RunCode::CoreArgumentTypeError,
        ) && final(heap)@ == old(heap)@),
        args@.len() == 1 ==> (base matches Value::List(l) ==> (args@[0] matches Value::List(l2)
            ==> (r == Ok::<Value, Error>(Value::Null) && (final(heap)@[l as int] matches
        HeapVal::List(el) && el@ == elems_of(old(heap)@, l) + elems_of(old(heap)@, l2)) && (
        forall|k: int|
            0 <= k < old(heap)@.len() && k != l ==> final(heap)@[k] == old(heap)@[k])))),
        args@.len() == 1 ==> (base matches Value::List(_) ==> !(args@[0] is List) ==> is_run_err(
            r,
            RunCode::CoreArgumentTypeError,
        ) && final(heap)@ == old(heap)@),
        args@.len() == 1 && !(base is Str || base is List) ==> is_run_err(
            r,
            RunCode::CoreBaseTypeError,
        ) && final(heap)@ == old(heap)@,
{
    if args.len() != 1 {
        return mserr(Type::RunTime(RunCode::CoreWrongNumberOfArguments));
    }
    match &base {
        Value::Str(s) => {
            match &args[0] {
                Value::Str(s2) => {
                    let addition = match heap.get(*s2) {
                        HeapVal::Text(t) => t.clone(),
                        _ => {
                            proof {
                                assert(false);
                            }
                            String::new()
                        },
                    };
                    let c = heap.take(*s);
                    match c {
                        HeapVal::Text(mut t) => {
                            t.append(addition.as_str());
                            heap.set(*s, HeapVal::Text(t));
                            proof {
                                lemma_concat_frame(old(heap)@, final(heap)@, *s as int);
                            }
                            Ok(Value::Null)
                        },
                        _ => {
                            proof {
                                assert(false);
                            }
                            mserr(Type::RunTime(RunCode::CoreBaseTypeError))
                        },
                    }
                },
                _ => mserr(Type::RunTime(RunCode::CoreArgumentTypeError)),
            }
        },
        Value::List(l) => {
            match &args[0] {
                Value::List(l2) => {
                    let mut addition = match heap.get(*l2) {
                        HeapVal::List(el) => dup_values(el),
                        _ => {
                            proof {
                                assert(false);
                            }
                            Vec::new()
                        },
                    };
                    proof {
                        assert(cell_ok(old(heap)@[*l2 as int], old(heap)@));
                        assert(cell_ok(old(heap)@[*l as int], old(heap)@));
                    }
                    let c = heap.take(*l);
                    match c {
                        HeapVal::List(mut el) => {
                            el.append(&mut addition);
                            proof {
                                assert forall|k: int|
                                    0 <= k < el@.len() implies valid_value(
                                    #[trigger] el@[k],
                                    old(heap)@,
                                ) by {
                                    if k < elems_of(old(heap)@, *l).len() {
                                        assert(el@[k] == elems_of(old(heap)@, *l)[k]);
                                    } else {
                                        assert(el@[k] == elems_of(old(heap)@, *l2)[k - elems_of(
                                            old(heap)@,
                                            *l,
                                        ).len()]);
                                    }
                                }
                            }
                            heap.set(*l, HeapVal::List(el));
                            proof {
                                lemma_concat_frame(old(heap)@, final(heap)@, *l as int);
                            }
                            Ok(Value::Null)
                        },
                        _ => {
                            proof {
                                assert(false);
                            }
                            mserr(Type::RunTime(RunCode::CoreBaseTypeError))
                        },
                    }
                },
                _ => mserr(Type::RunTime(RunCode::CoreArgumentTypeError)),
            }
        },
        _ => mserr(Type::RunTime(RunCode::CoreBaseTypeError)),
    }
}

/// After a double update (take, then set) of one cell, every other cell is
/// untouched, and the heap stays well formed when the new cell matches the
/// old kind with valid contents.
pub proof fn lemma_concat_frame(h1: Seq<HeapVal>, h2: Seq<HeapVal>, i: int)
    requires
        heap_wf(h1),
        0 <= i < h1.len(),
        h2.len() == h1.len(),
        forall|k: int| 0 <= k < h1.len() && k != i ==> h2[k] == h1[k],
        kind_of(h2[i]) == kind_of(h1[i]),
        cell_ok(h2[i], h1),
    ensures
        heap_wf(h2),
        heap_extends(h2, h1),
    decreases h1.len(),
{
    assert(h2 =~= h1.update(i, h2[i]));
    crate::heap::lemma_cell_ok_extends(h2[i], h1, h1.update(i, h2[i]));
    lemma_wf_update(h1, i, h2[i]);
}

/// A decimal digit character.
pub open spec fn is_digit(c: char) -> bool {
    '0' <= c && c <= '9'
}

pub open spec fn digit_of(c: char) -> int {
    c as int - 48
}

pub open spec fn all_digits(s: Seq<char>) -> bool {
    forall|i: int| 0 <= i < s.len() ==> is_digit(#[trigger] s[i])
}

/// The number a digit string denotes.
pub open spec fn digits_int(s: Seq<char>) -> int
    decreases s.len(),
{
    if s.len() == 0 {
        0
    } else {
        digits_int(s.drop_last()) * 10 + digit_of(s.last())
    }
}

/// The integer a piece of text denotes: an optional sign, then at least one
/// digit; anything else denotes nothing.
pub open spec fn chars_int(s: Seq<char>) -> Option<int> {
    if s.len() > 0 && (s[0] == '-' || s[0] == '+') {
        if s.len() > 1 && all_digits(s.skip(1)) {
            if s[0] == '-' {
                Some(-digits_int(s.skip(1)))
            } else {
                Some(digits_int(s.skip(1)))
            }
        } else {
            None
        }
    } else if s.len() > 0 && all_digits(s) {
        Some(digits_int(s))
    } else {
        None
    }
}

/// A digit string's value is non-negative.
proof fn lemma_digits_nonneg(s: Seq<char>)
    requires
        all_digits(s),
    ensures
        digits_int(s) >= 0,
    decreases s.len(),
{
    if s.len() > 0 {
        assert(all_digits(s.drop_last())) by {
            assert forall|i: int| 0 <= i < s.len() - 1 implies is_digit(
                #[trigger] s.drop_last()[i],
            ) by {
                assert(s.drop_last()[i] == s[i]);
            }
        }
        lemma_digits_nonneg(s.drop_last());
    }
}

/// A digit string's value dominates each of its prefixes' values.
proof fn lemma_digits_prefix(s: Seq<char>, i: int)
    requires
        all_digits(s),
        0 <= i <= s.len(),
    ensures
        digits_int(s) >= digits_int(s.take(i)),
    decreases s.len() - i,
{
    if i < s.len() {
        assert(all_digits(s.take(i))) by {
            assert forall|k: int| 0 <= k < i implies is_digit(#[trigger] s.take(i)[k]) by {
                assert(s.take(i)[k] == s[k]);
            }
        }
        lemma_digits_nonneg(s.take(i));
        assert(s.take(i + 1).drop_last() =~= s.take(i));
        assert(s.take(i + 1).last() == s[i]);
        assert(digits_int(s.take(i + 1)) == digits_int(s.take(i)) * 10 + digit_of(s[i]));
        lemma_digits_prefix(s, i + 1);
        assert(s.take(s.len() as int) =~= s);
    } else {
        assert(s.take(i) =~= s);
    }
}

/// Accumulate the value of the digits `cs[from..]`, reporting a value out of
/// the integer range as `None`.
fn accumulate_digits(cs: &Vec<char>, from: usize) -> (r: Option<u64>)
    requires
        from <= cs@.len(),
        all_digits(cs@.skip(from as int)),
    ensures
        r matches Some(acc) ==> acc == digits_int(cs@.skip(from as int)),
        r is None ==> digits_int(cs@.skip(from as int)) > u64::MAX,
{
    let n = cs.len();
    let ghost ds = cs@.skip(from as int);
    let mut acc: u64 = 0;
    let mut i: usize = from;
    while i < n
        invariant
            from <= i <= n,
            n == cs@.len(),
            ds == cs@.skip(from as int),
            all_digits(ds),
            acc == digits_int(ds.take(i - from)),
        decreases n - i,
    {
        let c = cs[i];
        proof {
            assert(ds[i - from] == cs@[i as int]);
            assert(is_digit(ds[i - from]));
        }
        let d: u64 = (c as u64) - 48;
        let stepped = match acc.checked_mul(10) {
            Some(t) => t.checked_add(d),
            None => None,
        };
        match stepped {
            Some(next) => {
                proof {
                    assert(ds.take(i - from + 1).drop_last() =~= ds.take(i - from));
                    assert(ds.take(i - from + 1).last() == ds[i - from]);
                }
                acc = next;
            },
            None => {
                proof {
                    assert(ds.take(i - from + 1).drop_last() =~= ds.take(i - from));
                    assert(ds.take(i - from + 1).last() == ds[i - from]);
                    assert(digits_int(ds.take(i - from + 1)) > u64::MAX);
                    lemma_digits_prefix(ds, i - from + 1);
                }
                return None;
            },
        }
        i += 1;
    }
    proof {
        assert(ds.take(n - from) =~= ds);
    }
    Some(acc)
}

/// `parse_num`: read an integer out of its decimal text form; text that does
/// not denote an integer in range is `CoreParseError`.
pub fn core_parse_num(base: Value, args: &Vec<Value>, heap: &Heap) -> (r: ExprRes)
    requires
        valid_value(base, heap@),
        heap_wf(heap@),
    ensures
        r matches Ok(v) ==> valid_value(v, heap@),
        args@.len() != 0 ==> is_run_err(r, RunCode::CoreWrongNumberOfArguments),
        args@.len() == 0 ==> (base matches Value::Str(s) ==> (chars_int(text_of(heap@, s))
            matches Some(v) ==> (i64::MIN <= v <= i64::MAX ==> r == Ok::<Value, Error>(
            Value::Val(VType::I(v as i64)),
        )))),
        args@.len() == 0 ==> (base matches Value::Str(s) ==> (chars_int(text_of(heap@, s))
            matches Some(v) ==> ((v < i64::MIN || v > i64::MAX) ==> is_run_err(
            r,
            RunCode::CoreParseError,
        )))),
        args@.len() == 0 ==> (base matches Value::Str(s) ==> (chars_int(text_of(heap@, s))
            is None ==> is_run_err(r, RunCode::CoreParseError))),
        args@.len() == 0 && !(base is Str) ==> is_run_err(r, RunCode::CoreBaseTypeError),
{
    if args.len() != 0 {
        return mserr(Type::RunTime(RunCode::CoreWrongNumberOfArguments));
    }
    let s = match &base {
        Value::Str(s) => *s,
        _ => {
            return mserr(Type::RunTime(RunCode::CoreBaseTypeError));
        },
    };
    let txt = match heap.get(s) {
        HeapVal::Text(t) => t.clone(),
        _ => {
            proof {
                assert(false);
            }
            String::new()
        },
    };
    let cs = crate::text::str_chars(txt.as_str());
    let n = cs.len();
    if n == 0 {
        return mserr(Type::RunTime(RunCode::CoreParseError));
    }
    let c0 = cs[0];
    let neg = c0 == '-';
    let signed = c0 == '-' || c0 == '+';
    let from: usize = if signed {
        1
    } else {
        0
    };
    if from >= n {
        proof {
            assert(args@.len() == 0);
            assert(cs@ == text_of(heap@, s));
            assert(chars_int(cs@) is None);
            assert(base matches Value::Str(s2) && s2 == s);
        }
        return mserr(Type::RunTime(RunCode::CoreParseError));
    }
    // every remaining character must be a digit
    let mut i = from;
    while i < n
        invariant
            from <= i <= n,
            n == cs@.len(),
            args@.len() == 0,
            base == Value::Str(s),
            cs@ == text_of(heap@, s),
            n > 0,
            from < n,
            signed == (cs@[0] == '-' || cs@[0] == '+'),
            signed ==> from == 1,
            !signed ==> from == 0,
            forall|k: int| from <= k < i ==> is_digit(#[trigger] cs@[k]),
        decreases n - i,
    {
        let c = cs[i];
        if !('0' <= c && c <= '9') {
            proof {
                assert(!is_digit(cs@[i as int]));
                assert(!all_digits(cs@.skip(from as int))) by {
                    assert(cs@.skip(from as int)[i - from] == cs@[i as int]);
                }
                if !signed {
                    assert(cs@.skip(0) =~= cs@);
                    assert(!all_digits(cs@));
                }
                assert(chars_int(cs@) is None);
            }
            return mserr(Type::RunTime(RunCode::CoreParseError));
        }
        i += 1;
    }
    proof {
        assert(all_digits(cs@.skip(from as int))) by {
            assert forall|k: int| 0 <= k < cs@.skip(from as int).len() implies is_digit(
                #[trigger] cs@.skip(from as int)[k],
            ) by {
                assert(cs@.skip(from as int)[k] == cs@[k + from]);
            }
        }
        if from == 0 {
            assert(cs@.skip(0) =~= cs@);
        }
    }
    let acc = match accumulate_digits(&cs, from) {
        Some(acc) => acc,
        None => {
            return mserr(Type::RunTime(RunCode::CoreParseError));
        },
    };
    if neg {
        if acc == 0 {
            Ok(Value::Val(VType::I(0)))
        } else if acc <= 0x8000_0000_0000_0000u64 {
            Ok(Value::Val(VType::I(-(((acc - 1) as i64)) - 1)))
        } else {
            mserr(Type::RunTime(RunCode::CoreParseError))
        }
    } else {
        if acc <= 0x7fff_ffff_ffff_ffffu64 {
            Ok(Value::Val(VType::I(acc as i64)))
        } else {
            mserr(Type::RunTime(RunCode::CoreParseError))
        }
    }
}

/// `append`: push one value onto the end of a list, in place.
pub fn core_append(base: Value, args: &Vec<Value>, heap: &mut Heap) -> (r: ExprRes)
    requires
        valid_value(base, old(heap)@),
        vals_valid(args@, old(heap)@),
        heap_wf(old(heap)@),
    ensures
        heap_extends(final(heap)@, old(heap)@),
        heap_wf(final(heap)@),
        final(heap)@.len() == old(heap)@.len(),
        r matches Ok(v) ==> valid_value(v, final(heap)@),
        args@.len() != 1 ==> is_run_err(r, RunCode::CoreWrongNumberOfArguments) && final(heap)@
            == old(heap)@,
        args@.len() == 1 ==> (base matches Value::List(l) ==> (r == Ok::<Value, Error>(Value::Null)
            && (final(heap)@[l as int] matches HeapVal::List(el) && el@ == elems_of(
            old(heap)@,
            l,
        ).push(args@[0])) && (forall|k: int|
            0 <= k < old(heap)@.len() && k != l ==> final(heap)@[k] == old(heap)@[k]))),
        args@.len() == 1 && !(base is List) ==> is_run_err(r, RunCode::CoreBaseTypeError) && final(heap)@ == old(heap)@,
{
    if args.len() != 1 {
        return mserr(Type::RunTime(RunCode::CoreWrongNumberOfArguments));
    }
    match &base {
        Value::List(l) => {
            proof {
                assert(cell_ok(old(heap)@[*l as int], old(heap)@));
            }
            let c = heap.take(*l);
            match c {
                HeapVal::List(mut el) => {
                    el.push(args[0].dup());
                    heap.set(*l, HeapVal::List(el));
                    proof {
                        lemma_concat_frame(old(heap)@, final(heap)@, *l as int);
                    }
                    Ok(Value::Null)
                },
                _ => {
                    proof {
                        assert(false);
                    }
                    mserr(Type::RunTime(RunCode::CoreBaseTypeError))
                },
            }
        },
        _ => mserr(Type::RunTime(RunCode::CoreBaseTypeError)),
    }
}

/// `pop`: drop the last character of a text or the last element of a list,
/// in place; popping an empty container does nothing.
pub fn core_pop(base: Value, args: &Vec<Value>, heap: &mut Heap) -> (r: ExprRes)
    requires
        valid_value(base, old(heap)@),
        heap_wf(old(heap)@),
    ensures
        heap_extends(final(heap)@, old(heap)@),
        heap_wf(final(heap)@),
        final(heap)@.len() == old(heap)@.len(),
        r matches Ok(v) ==> valid_value(v, final(heap)@),
        args@.len() != 0 ==> is_run_err(r, RunCode::CoreWrongNumberOfArguments) && final(heap)@
            == old(heap)@,
        args@.len() == 0 ==> (base matches Value::Str(s) ==> (r == Ok::<Value, Error>(Value::Null)
            && (final(heap)@[s as int] matches HeapVal::Text(t) && t@ == (if text_of(
            old(heap)@,
            s,
        ).len() == 0 {
            text_of(old(heap)@, s)
        } else {
            text_of(old(heap)@, s).drop_last()
        })) && (forall|k: int|
            0 <= k < old(heap)@.len() && k != s ==> final(heap)@[k] == old(heap)@[k]))),
        args@.len() == 0 ==> (base matches Value::List(l) ==> (r == Ok::<Value, Error>(Value::Null)
            && (final(heap)@[l as int] matches HeapVal::List(el) && el@ == (if elems_of(
            old(heap)@,
            l,
        ).len() == 0 {
            elems_of(old(heap)@, l)
        } else {
            elems_of(old(heap)@, l).drop_last()
        })) && (forall|k: int|
            0 <= k < old(heap)@.len() && k != l ==> final(heap)@[k] == old(heap)@[k]))),
        args@.len() == 0 && !(base is Str || base is List) ==> is_run_err(
            r,
            RunCode::CoreBaseTypeError,
        ) && final(heap)@ == old(heap)@,
{
    if args.len() != 0 {
        return mserr(Type::RunTime(RunCode::CoreWrongNumberOfArguments));
    }
    match &base {
        Value::Str(s) => {
            let c = heap.take(*s);
            match c {
                HeapVal::Text(mut t) => {
                    string_pop(&mut t);
                    heap.set(*s, HeapVal::Text(t));
                    proof {
                        lemma_concat_frame(old(heap)@, final(heap)@, *s as int);
                    }
                    Ok(Value::Null)
                },
                _ => {
                    proof {
                        assert(false);
                    }
                    mserr(Type::RunTime(RunCode::CoreBaseTypeError))
                },
            }
        },
        Value::List(l) => {
            proof {
                assert(cell_ok(old(heap)@[*l as int], old(heap)@));
            }
            let c = heap.take(*l);
            match c {
                HeapVal::List(mut el) => {
                    if el.len() > 0 {
                        let popped = el.pop();
                    }
                    proof {
                        assert forall|k: int| 0 <= k < el@.len() implies valid_value(
                            #[trigger] el@[k],
                            old(heap)@,
                        ) by {
                            assert(el@[k] == elems_of(old(heap)@, *l)[k]);
                        }
                    }
                    heap.set(*l, HeapVal::List(el));
                    proof {
                        lemma_concat_frame(old(heap)@, final(heap)@, *l as int);
                    }
                    Ok(Value::Null)
                },
                _ => {
                    proof {
                        assert(false);
                    }
                    mserr(Type::RunTime(RunCode::CoreBaseTypeError))
                },
            }
        },
        _ => mserr(Type::RunTime(RunCode::CoreBaseTypeError)),
    }
}

/// `front`/`back`: the first or last element of a list; empty lists are
/// `CoreAccessError`.
pub fn core_end(base: Value, args: &Vec<Value>, heap: &Heap, want_back: bool) -> (r: ExprRes)
    requires
        valid_value(base, heap@),
        heap_wf(heap@),
    ensures
        r matches Ok(v) ==> valid_value(v, heap@),
        args@.len() != 0 ==> is_run_err(r, RunCode::CoreWrongNumberOfArguments),
        args@.len() == 0 ==> (base matches Value::List(l) ==> (elems_of(heap@, l).len() > 0 ==> r
            == Ok::<Value, Error>(
            if want_back {
                elems_of(heap@, l).last()
            } else {
                elems_of(heap@, l).first()
            },
        ))),
        args@.len() == 0 ==> (base matches Value::List(l) ==> (elems_of(heap@, l).len() == 0
            ==> is_run_err(r, RunCode::CoreAccessError))),
        args@.len() == 0 && !(base is List) ==> is_run_err(r, RunCode::CoreBaseTypeError),
{
    if args.len() != 0 {
        return mserr(Type::RunTime(RunCode::CoreWrongNumberOfArguments));
    }
    match &base {
        Value::List(l) => {
            proof {
                assert(cell_ok(heap@[*l as int], heap@));
            }
            match heap.get(*l) {
                HeapVal::List(el) => {
                    if el.len() == 0 {
                        mserr(Type::RunTime(RunCode::CoreAccessError))
                    } else if want_back {
                        proof {
                            assert(valid_value(el@[el@.len() - 1], heap@));
                        }
                        Ok(el[el.len() - 1].dup())
                    } else {
                        proof {
                            assert(valid_value(el@[0], heap@));
                        }
                        Ok(el[0].dup())
                    }
                },
                _ => {
                    proof {
                        assert(false);
                    }
                    mserr(Type::RunTime(RunCode::CoreBaseTypeError))
                },
            }
        },
        _ => mserr(Type::RunTime(RunCode::CoreBaseTypeError)),
    }
}

/// Elementwise search outcome: did any element compare structurally equal to
/// `v` so far, scanning from `i`?
pub open spec fn contains_spec(
    elems: Seq<Value>,
    v: Value,
    h: Seq<HeapVal>,
    fuel: nat,
    i: int,
) -> Option<bool>
    decreases elems.len() - i,
{
    if i < 0 || i >= elems.len() {
        Some(false)
    } else {
        match spec_struct_eq(v, elems[i], h, fuel) {
            Some(true) => Some(true),
            Some(false) => contains_spec(elems, v, h, fuel, i + 1),
            None => None,
        }
    }
}

/// `contains`: whether any element of a list equals the argument
/// (structurally).
pub fn core_contains(base: Value, args: &Vec<Value>, heap: &Heap) -> (r: ExprRes)
    requires
        valid_value(base, heap@),
        vals_valid(args@, heap@),
        heap_wf(heap@),
    ensures
        r matches Ok(v) ==> valid_value(v, heap@),
        args@.len() != 1 ==> is_run_err(r, RunCode::CoreWrongNumberOfArguments),
        args@.len() == 1 ==> (base matches Value::List(l) ==> (contains_spec(
            elems_of(heap@, l),
            args@[0],
            heap@,
            EQ_DEPTH as nat,
            0,
        ) matches Some(found) ==> r == Ok::<Value, Error>(Value::Val(VType::B(found))))),
        args@.len() == 1 ==> (base matches Value::List(l) ==> (contains_spec(
            elems_of(heap@, l),
            args@[0],
            heap@,
            EQ_DEPTH as nat,
            0,
        ) is None ==> is_run_err(r, RunCode::RecursionLimit))),
        args@.len() == 1 && !(base is List) ==> is_run_err(r, RunCode::CoreBaseTypeError),
{
    if args.len() != 1 {
        return mserr(Type::RunTime(RunCode::CoreWrongNumberOfArguments));
    }
    match &base {
        Value::List(l) => {
            proof {
                assert(cell_ok(heap@[*l as int], heap@));
            }
            let ghost elems = elems_of(heap@, *l);
            let n = match heap.get(*l) {
                HeapVal::List(el) => el.len(),
                _ => {
                    proof {
                        assert(false);
                    }
                    0
                },
            };
            let mut i: usize = 0;
            while i < n
                invariant
                    i <= n,
                    base == Value::List(*l),
                    valid_value(Value::List(*l), heap@),
                    vals_valid(args@, heap@),
                    args@.len() == 1,
                    heap_wf(heap@),
                    elems == elems_of(heap@, *l),
                    n == elems.len(),
                    contains_spec(elems, args@[0], heap@, EQ_DEPTH as nat, 0) == contains_spec(
                        elems,
                        args@[0],
                        heap@,
                        EQ_DEPTH as nat,
                        i as int,
                    ),
                decreases n - i,
            {
                let e = match heap.get(*l) {
                    HeapVal::List(el) => el[i].dup(),
                    _ => {
                        proof {
                            assert(false);
                        }
                        Value::Null
                    },
                };
                proof {
                    assert(valid_value(elems[i as int], heap@));
                }
                proof {
                    assert(e == elems[i as int]);
                }
                match struct_eq_values(&args[0], &e, heap, EQ_DEPTH) {
                    Ok(true) => {
                        proof {
                            assert(contains_spec(elems, args@[0], heap@, EQ_DEPTH as nat, i as int)
                                == Some::<bool>(true));
                        }
                        return Ok(Value::Val(VType::B(true)));
                    },
                    Ok(false) => {
                        proof {
                            assert(contains_spec(elems, args@[0], heap@, EQ_DEPTH as nat, i as int)
                                == contains_spec(
                                elems,
                                args@[0],
                                heap@,
                                EQ_DEPTH as nat,
                                i as int + 1,
                            ));
                        }
                    },
                    Err(e) => {
                        proof {
                            assert(contains_spec(elems, args@[0], heap@, EQ_DEPTH as nat, i as int)
                                is None);
                        }
                        return Err(e);
                    },
                }
                i += 1;
            }
            Ok(Value::Val(VType::B(false)))
        },
        _ => mserr(Type::RunTime(RunCode::CoreBaseTypeError)),
    }
}

/// `is_field`: whether an object has a field with the given (text) name.
pub fn core_is_field(base: Value, args: &Vec<Value>, heap: &Heap) -> (r: ExprRes)
    requires
        valid_value(base, heap@),
        vals_valid(args@, heap@),
        heap_wf(heap@),
    ensures
        r matches Ok(v) ==> valid_value(v, heap@),
        args@.len() != 1 ==> is_run_err(r, RunCode::CoreWrongNumberOfArguments),
        args@.len() == 1 ==> (base matches Value::Obj(o) ==> (args@[0] matches Value::Str(s) ==> r
            == Ok::<Value, Error>(
            Value::Val(VType::B(obj_find(fields_of(heap@, o), text_of(heap@, s)) >= 0)),
        ))),
        args@.len() == 1 ==> (base matches Value::Obj(_) ==> (!(args@[0] is Str) ==> is_run_err(
            r,
            RunCode::CoreArgumentTypeError,
        ))),
        args@.len() == 1 && !(base is Obj) ==> is_run_err(r, RunCode::CoreBaseTypeError),
{
    if args.len() != 1 {
        return mserr(Type::RunTime(RunCode::CoreWrongNumberOfArguments));
    }
    match &base {
        Value::Obj(o) => {
            match &args[0] {
                Value::Str(s) => {
                    let name = match heap.get(*s) {
                        HeapVal::Text(t) => t.clone(),
                        _ => {
                            proof {
                                assert(false);
                            }
                            String::new()
                        },
                    };
                    match heap.get(*o) {
                        HeapVal::Obj(fields) => {
                            match crate::ops::obj_scan(fields, name.as_str()) {
                                Some(_) => Ok(Value::Val(VType::B(true))),
                                None => Ok(Value::Val(VType::B(false))),
                            }
                        },
                        _ => {
                            proof {
                                assert(false);
                            }
                            mserr(Type::RunTime(RunCode::CoreBaseTypeError))
                        },
                    }
                },
                _ => mserr(Type::RunTime(RunCode::CoreArgumentTypeError)),
            }
        },
        _ => mserr(Type::RunTime(RunCode::CoreBaseTypeError)),
    }
}

/// Two field lists carry the same field names: the same number of fields,
/// and every name of one is a name of the other, wherever it stands.
pub open spec fn same_keys(a: Seq<(String, Value)>, b: Seq<(String, Value)>) -> bool {
    a.len() == b.len() && forall|k: int|
        0 <= k < a.len() ==> obj_find(b, (#[trigger] a[k]).0@) >= 0
}

/// `same`: whether two objects have the same field names (their values may
/// differ).
pub fn core_same(base: Value, args: &Vec<Value>, heap: &Heap) -> (r: ExprRes)
    requires
        valid_value(base, heap@),
        vals_valid(args@, heap@),
        heap_wf(heap@),
    ensures
        r matches Ok(v) ==> valid_value(v, heap@),
        args@.len() != 1 ==> is_run_err(r, RunCode::CoreWrongNumberOfArguments),
        args@.len() == 1 ==> (base matches Value::Obj(o) ==> (args@[0] matches Value::Obj(o2) ==> r
            == Ok::<Value, Error>(
            Value::Val(VType::B(same_keys(fields_of(heap@, o), fields_of(heap@, o2)))),
        ))),
        args@.len() == 1 ==> (base matches Value::Obj(_) ==> (!(args@[0] is Obj) ==> is_run_err(
            r,
            RunCode::CoreArgumentTypeError,
        ))),
        args@.len() == 1 && !(base is Obj) ==> is_run_err(r, RunCode::CoreBaseTypeError),
{
    if args.len() != 1 {
        return mserr(Type::RunTime(RunCode::CoreWrongNumberOfArguments));
    }
    match &base {
        Value::Obj(o) => {
            match &args[0] {
                Value::Obj(o2) => {
                    let alen = match heap.get(*o) {
                        HeapVal::Obj(fs) => fs.len(),
                        _ => {
                            proof {
                                assert(false);
                            }
                            0
                        },
                    };
                    let blen = match heap.get(*o2) {
                        HeapVal::Obj(fs) => fs.len(),
                        _ => {
                            proof {
                                assert(false);
                            }
                            0
                        },
                    };
                    if alen != blen {
                        return Ok(Value::Val(VType::B(false)));
                    }
                    let ghost fa = fields_of(heap@, *o);
                    let ghost fb = fields_of(heap@, *o2);
                    let mut i: usize = 0;
                    while i < alen
                        invariant
                            i <= alen,
                            base == Value::Obj(*o),
                            args@.len() == 1,
                            args@[0] == Value::Obj(*o2),
                            valid_value(Value::Obj(*o), heap@),
                            valid_value(Value::Obj(*o2), heap@),
                            fa == fields_of(heap@, *o),
                            fb == fields_of(heap@, *o2),
                            alen == fa.len(),
                            alen == fb.len(),
                            forall|k: int| 0 <= k < i ==> obj_find(fb, (#[trigger] fa[k]).0@) >= 0,
                        decreases alen - i,
                    {
                        let na = match heap.get(*o) {
                            HeapVal::Obj(fs) => fs[i].0.clone(),
                            _ => {
                                proof {
                                    assert(false);
                                }
                                String::new()
                            },
                        };
                        let found = match heap.get(*o2) {
                            HeapVal::Obj(fs) => crate::ops::obj_scan(fs, na.as_str()),
                            _ => {
                                proof {
                                    assert(false);
                                }
                                None
                            },
                        };
                        if found.is_none() {
                            proof {
                                assert(obj_find(fb, fa[i as int].0@) == -1);
                            }
                            return Ok(Value::Val(VType::B(false)));
                        }
                        i += 1;
                    }
                    Ok(Value::Val(VType::B(true)))
                },
                _ => mserr(Type::RunTime(RunCode::CoreArgumentTypeError)),
            }
        },
        _ => mserr(Type::RunTime(RunCode::CoreBaseTypeError)),
    }
}


/// `insert`: put a key/value pair into a map, keyed by the key's hash; an
/// entry under the same hash is overwritten (the collision hazard).  The map
/// retains a one-level copy of the key for inspection.
pub fn core_insert(base: Value, args: &Vec<Value>, heap: &mut Heap) -> (r: ExprRes)
    requires
        valid_value(base, old(heap)@),
        vals_valid(args@, old(heap)@),
        heap_wf(old(heap)@),
    ensures
        heap_extends(final(heap)@, old(heap)@),
        heap_wf(final(heap)@),
        r matches Ok(v) ==> valid_value(v, final(heap)@),
        args@.len() != 2 ==> is_run_err(r, RunCode::CoreWrongNumberOfArguments) && final(heap)@
            == old(heap)@,
        args@.len() == 2 && !(base is Dict) ==> is_run_err(r, RunCode::CoreBaseTypeError) && final(
            heap)@ == old(heap)@,
        args@.len() == 2 ==> (base matches Value::Dict(m) ==> (spec_hash(
            args@[0],
            old(heap)@,
            HASH_DEPTH as nat,
        ) matches Err(c) ==> is_run_err(r, c) && final(heap)@ == old(heap)@)),
        args@.len() == 2 ==> (base matches Value::Dict(m) ==> (spec_hash(
            args@[0],
            old(heap)@,
            HASH_DEPTH as nat,
        ) matches Ok(hk) ==> ((args@[0] is Val || args@[0] is Ref || args@[0] is Str) ==> r
            == Ok::<Value, Error>(Value::Null) && dict_cells_frame(old(heap)@, final(heap)@, m)
            && inserted(entries_of(old(heap)@, m), entries_of(final(heap)@, m), hk, args@[1])))),
{
    if args.len() != 2 {
        return mserr(Type::RunTime(RunCode::CoreWrongNumberOfArguments));
    }
    let m = match &base {
        Value::Dict(m) => *m,
        _ => {
            return mserr(Type::RunTime(RunCode::CoreBaseTypeError));
        },
    };
    let hk = match hash_value(&args[0], heap) {
        Ok(hk) => hk,
        Err(e) => {
            return Err(e);
        },
    };
    let no_args: Vec<Value> = Vec::new();
    let keyclone = match core_clone(args[0].dup(), &no_args, heap) {
        Ok(v) => v,
        Err(e) => {
            proof {
                assert(args@[0] is Val || args@[0] is Ref || args@[0] is Str ==> false);
            }
            return Err(e);
        },
    };
    let ghost h1 = heap@;
    proof {
        lemma_appended_only_extends(h1, old(heap)@);
        assert(valid_value(Value::Dict(m), h1));
        assert(cell_ok(h1[m as int], h1));
        lemma_valid_value_extends(args@[1], old(heap)@, h1);
    }
    let c = heap.take(m);
    match c {
        HeapVal::Dict(mut es) => {
            let ghost old_es = es@;
            let arg1 = args[1].dup();
            match crate::ops::dict_scan(&es, hk) {
                Some(j) => {
                    es.set(j, (hk, keyclone, arg1));
                },
                None => {
                    es.push((hk, keyclone, arg1));
                },
            }
            proof {
                assert forall|k: int| 0 <= k < es@.len() implies valid_value(
                    (#[trigger] es@[k]).1,
                    h1,
                ) && valid_value(es@[k].2, h1) by {
                    if k < old_es.len() && es@[k] == old_es[k] {
                        assert(old_es[k] == entries_of(h1, m)[k]);
                    }
                }
            }
            heap.set(m, HeapVal::Dict(es));
            proof {
                lemma_concat_frame(h1, final(heap)@, m as int);
                crate::heap::lemma_heap_extends_trans(final(heap)@, h1, old(heap)@);
                assert(entries_of(old(heap)@, m) == entries_of(h1, m));
            }
            Ok(Value::Null)
        },
        _ => {
            proof {
                assert(false);
            }
            mserr(Type::RunTime(RunCode::CoreBaseTypeError))
        },
    }
}

/// Every cell but the map's own is untouched.
pub open spec fn dict_cells_frame(h1: Seq<HeapVal>, h2: Seq<HeapVal>, m: usize) -> bool {
    forall|k: int| 0 <= k < h1.len() && k != m ==> h2[k] == h1[k]
}

/// What one map insertion does to the entry list: the entry under the hash
/// is overwritten if present (the collision hazard: a colliding key replaces
/// the earlier entry), else a new entry is appended; other entries keep
/// their places.
pub open spec fn inserted(
    old_es: Seq<(HashV, Value, Value)>,
    es: Seq<(HashV, Value, Value)>,
    hk: HashV,
    v: Value,
) -> bool {
    if dict_find(old_es, hk) >= 0 {
        let j = dict_find(old_es, hk);
        es.len() == old_es.len() && es[j].0 == hk && es[j].2 == v && (forall|k: int|
            0 <= k < es.len() && k != j ==> es[k] == old_es[k])
    } else {
        es.len() == old_es.len() + 1 && es.last().0 == hk && es.last().2 == v && (forall|k: int|
            0 <= k < old_es.len() ==> es[k] == old_es[k])
    }
}

/// The method names this runtime's core knows.
pub open spec fn known_core(n: Seq<char>) -> bool {
    ||| n == "to_string"@
    ||| n == "abs"@
    ||| n == "len"@
    ||| n == "clone"@
    ||| n == "concat"@
    ||| n == "parse_num"@
    ||| n == "append"@
    ||| n == "pop"@
    ||| n == "front"@
    ||| n == "back"@
    ||| n == "contains"@
    ||| n == "is_field"@
    ||| n == "same"@
    ||| n == "insert"@
}

/// Dispatch a core method call by name.  Each method's own function states
/// its exact behaviour; an unknown name is `CoreFunctionNotFound`.
pub fn core_func_call(func: &str, base_type: Value, args: &Vec<Value>, heap: &mut Heap) -> (r:
    ExprRes)
    requires
        valid_value(base_type, old(heap)@),
        vals_valid(args@, old(heap)@),
        heap_wf(old(heap)@),
    ensures
        heap_extends(final(heap)@, old(heap)@),
        heap_wf(final(heap)@),
        r matches Ok(v) ==> valid_value(v, final(heap)@),
        !known_core(func@) ==> is_run_err(r, RunCode::CoreFunctionNotFound) && final(heap)@ == old(
            heap)@,
{
    if str_eq(func, "to_string") {
        let r = core_to_string(base_type, args, heap);
        proof {
            lemma_appended_only_extends(final(heap)@, old(heap)@);
        }
        r
    } else if str_eq(func, "abs") {
        core_abs(base_type, args, heap)
    } else if str_eq(func, "len") {
        core_len(base_type, args, heap)
    } else if str_eq(func, "clone") {
        let r = core_clone(base_type, args, heap);
        proof {
            lemma_appended_only_extends(final(heap)@, old(heap)@);
        }
        r
    } else if str_eq(func, "concat") {
        core_concat(base_type, args, heap)
    } else if str_eq(func, "parse_num") {
        core_parse_num(base_type, args, heap)
    } else if str_eq(func, "append") {
        core_append(base_type, args, heap)
    } else if str_eq(func, "pop") {
        core_pop(base_type, args, heap)
    } else if str_eq(func, "front") {
        core_end(base_type, args, heap, false)
    } else if str_eq(func, "back") {
        core_end(base_type, args, heap, true)
    } else if str_eq(func, "contains") {
        core_contains(base_type, args, heap)
    } else if str_eq(func, "is_field") {
        core_is_field(base_type, args, heap)
    } else if str_eq(func, "same") {
        core_same(base_type, args, heap)
    } else if str_eq(func, "insert") {
        core_insert(base_type, args, heap)
    } else {
        mserr(Type::RunTime(RunCode::CoreFunctionNotFound))
    }
}


} // verus!
