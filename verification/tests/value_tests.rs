//! Values: hashing, equality relations, indexing, core methods, rendering.

use scriptrt::builtins::core_func_call;
use scriptrt::compare::{strict_eq_values, weak_eq_values};
use scriptrt::error::{RunCode, Type};
use scriptrt::hash::hash_value;
use scriptrt::heap::{Heap, HeapVal};
use scriptrt::ops::index_value;
use scriptrt::text::i64_to_string;
use scriptrt::value::{VType, Value};

fn ival(i: i64) -> Value {
    Value::Val(VType::I(i))
}

fn bval(b: bool) -> Value {
    Value::Val(VType::B(b))
}

fn text(heap: &mut Heap, s: &str) -> Value {
    Value::Str(heap.new_cell(HeapVal::Text(s.to_string())))
}

fn list(heap: &mut Heap, elems: Vec<Value>) -> Value {
    Value::List(heap.new_cell(HeapVal::List(elems)))
}

fn is_run_code(e: &scriptrt::error::Error, c: RunCode) -> bool {
    matches!(e.code(), Type::RunTime(cc) if *cc == c)
}

// Weak vs strict equality: `0 == false` is true but `0 === false` is a type
// error; `"3" == 3` is true but `"3" === 3` is a type error.
#[test]
fn weak_vs_strict_equality() {
    let mut heap = Heap::new();

    assert_eq!(weak_eq_values(&ival(0), &bval(false), &heap), Ok(true));
    let err = strict_eq_values(&ival(0), &bval(false), &heap).unwrap_err();
    assert!(is_run_code(&err, RunCode::TypeError));

    let three = text(&mut heap, "3");
    assert_eq!(weak_eq_values(&three, &ival(3), &heap), Ok(true));
    let err2 = strict_eq_values(&three, &ival(3), &heap).unwrap_err();
    assert!(is_run_code(&err2, RunCode::TypeError));

    assert_eq!(weak_eq_values(&ival(1), &bval(true), &heap), Ok(true));
    assert_eq!(weak_eq_values(&ival(2), &bval(true), &heap), Ok(true));
    assert_eq!(weak_eq_values(&ival(0), &bval(true), &heap), Ok(false));
    assert_eq!(weak_eq_values(&ival(3), &ival(3), &heap), Ok(true));
    assert_eq!(strict_eq_values(&ival(3), &ival(3), &heap), Ok(true));
}

// Negative indexing: for a 5-element list, -1 resolves to element 4, -5 to
// element 0, and -6 is out of bounds.
#[test]
fn negative_indexing() {
    let mut heap = Heap::new();
    let l = list(
        &mut heap,
        vec![ival(10), ival(11), ival(12), ival(13), ival(14)],
    );

    assert_eq!(index_value(&l, &ival(-1), &heap), Ok(ival(14)));
    assert_eq!(index_value(&l, &ival(-5), &heap), Ok(ival(10)));
    let err = index_value(&l, &ival(-6), &heap).unwrap_err();
    assert!(is_run_code(&err, RunCode::OutOfBounds));
    assert_eq!(index_value(&l, &ival(0), &heap), Ok(ival(10)));
    assert_eq!(index_value(&l, &ival(4), &heap), Ok(ival(14)));
    let err2 = index_value(&l, &ival(5), &heap).unwrap_err();
    assert!(is_run_code(&err2, RunCode::OutOfBounds));
}

// Hash collision hazard: 0 and false are distinct keys with the same hash,
// so the later insertion silently overwrites the earlier entry.  This pins
// current behaviour down; it is a known limitation, not a guarantee.
#[test]
fn hash_collision_overwrites() {
    let mut heap = Heap::new();

    assert_eq!(hash_value(&ival(0), &heap), hash_value(&bval(false), &heap));
    assert_ne!(ival(0), bval(false));

    let m = Value::Dict(heap.new_cell(HeapVal::Dict(vec![])));
    core_func_call("insert", m.dup(), &vec![ival(0), ival(1)], &mut heap).unwrap();
    core_func_call("insert", m.dup(), &vec![bval(false), ival(2)], &mut heap).unwrap();

    // one entry, holding the second value
    assert_eq!(index_value(&m, &ival(0), &heap), Ok(ival(2)));
    assert_eq!(index_value(&m, &bval(false), &heap), Ok(ival(2)));
    if let Value::Dict(ix) = m {
        match heap.get(ix) {
            HeapVal::Dict(es) => assert_eq!(es.len(), 1),
            _ => panic!("expected map cell"),
        }
    }
}

#[test]
fn unhashable_values_rejected() {
    let mut heap = Heap::new();
    let l = list(&mut heap, vec![ival(1)]);
    let err = hash_value(&l, &heap).unwrap_err();
    assert!(is_run_code(&err, RunCode::ValueNotHashable));
}

#[test]
fn pair_keys_hash_recursively() {
    let mut heap = Heap::new();
    let a = heap.new_cell(HeapVal::Cell(ival(1)));
    let b = heap.new_cell(HeapVal::Cell(ival(2)));
    let p1 = Value::Pair(a, b);
    let c = heap.new_cell(HeapVal::Cell(ival(1)));
    let d = heap.new_cell(HeapVal::Cell(ival(2)));
    let p2 = Value::Pair(c, d);
    // equal member content gives equal hashes, across distinct cells
    assert_eq!(hash_value(&p1, &heap), hash_value(&p2, &heap));
    let e = heap.new_cell(HeapVal::Cell(ival(3)));
    let f = heap.new_cell(HeapVal::Cell(ival(1)));
    let p3 = Value::Pair(e, f);
    assert_ne!(
        hash_value(&p1, &heap).unwrap(),
        hash_value(&p3, &heap).unwrap()
    );
}

#[test]
fn to_string_renders_scalars() {
    let mut heap = Heap::new();
    let r = core_func_call("to_string", ival(-120), &vec![], &mut heap).unwrap();
    match r {
        Value::Str(ix) => match heap.get(ix) {
            HeapVal::Text(t) => assert_eq!(t, "-120"),
            _ => panic!("expected text"),
        },
        _ => panic!("expected text value"),
    }
}

#[test]
fn parse_num_reads_integers() {
    let mut heap = Heap::new();
    let t = text(&mut heap, "-37");
    assert_eq!(
        core_func_call("parse_num", t, &vec![], &mut heap),
        Ok(ival(-37))
    );
    let t2 = text(&mut heap, "0042");
    assert_eq!(
        core_func_call("parse_num", t2, &vec![], &mut heap),
        Ok(ival(42))
    );
    let bad = text(&mut heap, "4x");
    let err = core_func_call("parse_num", bad, &vec![], &mut heap).unwrap_err();
    assert!(is_run_code(&err, RunCode::CoreParseError));
    let huge = text(&mut heap, "99999999999999999999999");
    let err2 = core_func_call("parse_num", huge, &vec![], &mut heap).unwrap_err();
    assert!(is_run_code(&err2, RunCode::CoreParseError));
}

#[test]
fn abs_len_front_back() {
    let mut heap = Heap::new();
    assert_eq!(core_func_call("abs", ival(-5), &vec![], &mut heap), Ok(ival(5)));
    assert_eq!(core_func_call("abs", ival(5), &vec![], &mut heap), Ok(ival(5)));

    let l = list(&mut heap, vec![ival(7), ival(8), ival(9)]);
    assert_eq!(core_func_call("len", l.dup(), &vec![], &mut heap), Ok(ival(3)));
    assert_eq!(core_func_call("front", l.dup(), &vec![], &mut heap), Ok(ival(7)));
    assert_eq!(core_func_call("back", l.dup(), &vec![], &mut heap), Ok(ival(9)));
}

#[test]
fn append_pop_contains() {
    let mut heap = Heap::new();
    let l = list(&mut heap, vec![ival(1)]);
    core_func_call("append", l.dup(), &vec![ival(2)], &mut heap).unwrap();
    assert_eq!(core_func_call("len", l.dup(), &vec![], &mut heap), Ok(ival(2)));
    assert_eq!(
        core_func_call("contains", l.dup(), &vec![ival(2)], &mut heap),
        Ok(bval(true))
    );
    assert_eq!(
        core_func_call("contains", l.dup(), &vec![ival(5)], &mut heap),
        Ok(bval(false))
    );
    core_func_call("pop", l.dup(), &vec![], &mut heap).unwrap();
    assert_eq!(core_func_call("len", l.dup(), &vec![], &mut heap), Ok(ival(1)));
}

#[test]
fn concat_mutates_shared_text() {
    let mut heap = Heap::new();
    let a = text(&mut heap, "x = ");
    let b = text(&mut heap, "3");
    // the first cell grows in place: an alias sees the growth
    let alias = a.dup();
    core_func_call("concat", a, &vec![b], &mut heap).unwrap();
    if let Value::Str(ix) = alias {
        match heap.get(ix) {
            HeapVal::Text(t) => assert_eq!(t, "x = 3"),
            _ => panic!("expected text"),
        }
    }
}

#[test]
fn clone_copies_one_level() {
    let mut heap = Heap::new();
    let l = list(&mut heap, vec![ival(1), ival(2)]);
    let c = core_func_call("clone", l.dup(), &vec![], &mut heap).unwrap();
    // growing the original list does not grow the copy
    core_func_call("append", l.dup(), &vec![ival(3)], &mut heap).unwrap();
    assert_eq!(core_func_call("len", l, &vec![], &mut heap), Ok(ival(3)));
    assert_eq!(core_func_call("len", c, &vec![], &mut heap), Ok(ival(2)));
}

#[test]
fn unknown_core_method_rejected() {
    let mut heap = Heap::new();
    let err = core_func_call("frobnicate", ival(1), &vec![], &mut heap).unwrap_err();
    assert!(is_run_code(&err, RunCode::CoreFunctionNotFound));
    // float-only method names are unknown to this runtime
    let err2 = core_func_call("floor", ival(1), &vec![], &mut heap).unwrap_err();
    assert!(is_run_code(&err2, RunCode::CoreFunctionNotFound));
}

#[test]
fn decimal_rendering() {
    assert_eq!(i64_to_string(0), "0");
    assert_eq!(i64_to_string(120), "120");
    assert_eq!(i64_to_string(-120), "-120");
    assert_eq!(i64_to_string(i64::MIN), "-9223372036854775808");
    assert_eq!(i64_to_string(i64::MAX), "9223372036854775807");
}

#[test]
fn values_render_for_diagnostics() {
    let mut heap = Heap::new();
    assert_eq!(ival(3).render(&heap), "3");
    assert_eq!(bval(true).render(&heap), "true");
    assert_eq!(Value::Null.render(&heap), "null");
    let t = text(&mut heap, "hi");
    assert_eq!(t.render(&heap), "\"hi\"");
    let l = list(&mut heap, vec![ival(1), ival(2)]);
    assert_eq!(l.render(&heap), "[1, 2]");
    let f = Value::Func("pkg".to_string(), "f".to_string());
    assert_eq!(f.render(&heap), "function{pkg::f}");
}

#[test]
fn error_messages_name_the_code() {
    let e = scriptrt::error::Error::new(Type::RunTime(RunCode::OutOfBounds));
    assert_eq!(e.to_string(), "Runtime error: OutOfBounds");
    let c = scriptrt::error::Error::new(Type::Critical(
        scriptrt::error::CriticalCode::ScopeError,
    ));
    assert_eq!(c.to_string(), "Internal error: ScopeError");
}

#[test]
fn resolver_resolves_aliases() {
    let mut r = scriptrt::resolver::Resolver::new();
    let err = r.get_package_ref(None).unwrap_err();
    assert!(matches!(
        err.code(),
        Type::Critical(scriptrt::error::CriticalCode::NoDefaultPackage)
    ));

    r.set_package("main");
    assert_eq!(r.get_package_ref(None).unwrap(), "main");

    r.add_package_ref("m", "math");
    assert_eq!(r.get_package_ref(Some("m")).unwrap(), "math");

    // local references take precedence over package aliases
    r.add_local_ref("m", "local_math");
    assert_eq!(r.get_package_ref(Some("m")).unwrap(), "local_math");
    r.clear_local_refs();
    assert_eq!(r.get_package_ref(Some("m")).unwrap(), "math");

    let missing = r.get_package_ref(Some("q")).unwrap_err();
    assert!(matches!(
        missing.code(),
        Type::CompileTime(scriptrt::error::CompileCode::PackageNotFound)
    ));
}

#[test]
fn mul_repeats_text_and_lists() {
    let mut heap = Heap::new();
    let t = text(&mut heap, "ab");
    let r = scriptrt::ops::mul_values(&t, &ival(3), &mut heap).unwrap();
    if let Value::Str(ix) = r {
        match heap.get(ix) {
            HeapVal::Text(s) => assert_eq!(s, "ababab"),
            _ => panic!("expected text"),
        }
    } else {
        panic!("expected text value");
    }
    let err = scriptrt::ops::mul_values(&t, &ival(-1), &mut heap).unwrap_err();
    assert!(is_run_code(&err, RunCode::InvalidNegative));

    let l = list(&mut heap, vec![ival(1), ival(2)]);
    let r2 = scriptrt::ops::mul_values(&l, &ival(2), &mut heap).unwrap();
    if let Value::List(ix) = r2 {
        match heap.get(ix) {
            HeapVal::List(el) => {
                let got: Vec<Value> = el.iter().map(|v| v.dup()).collect();
                assert_eq!(got, vec![ival(1), ival(2), ival(1), ival(2)]);
            }
            _ => panic!("expected list"),
        }
    } else {
        panic!("expected list value");
    }
}

#[test]
fn pop_shortens_text_in_place() {
    let mut heap = Heap::new();
    let t = text(&mut heap, "ab");
    core_func_call("pop", t.dup(), &vec![], &mut heap).unwrap();
    if let Value::Str(ix) = t {
        match heap.get(ix) {
            HeapVal::Text(s) => assert_eq!(s, "a"),
            _ => panic!("expected text"),
        }
    }
}

#[test]
fn pop_on_empty_containers_is_quiet() {
    let mut heap = Heap::new();
    let t = text(&mut heap, "");
    assert_eq!(core_func_call("pop", t, &vec![], &mut heap), Ok(Value::Null));
    let l = list(&mut heap, vec![]);
    assert_eq!(
        core_func_call("pop", l.dup(), &vec![], &mut heap),
        Ok(Value::Null)
    );
    let err = core_func_call("front", l, &vec![], &mut heap).unwrap_err();
    assert!(is_run_code(&err, RunCode::CoreAccessError));
}

#[test]
fn is_field_and_same_inspect_objects() {
    let mut heap = Heap::new();
    let o1 = Value::Obj(heap.new_cell(HeapVal::Obj(vec![
        ("a".to_string(), ival(1)),
        ("b".to_string(), ival(2)),
    ])));
    let o2 = Value::Obj(heap.new_cell(HeapVal::Obj(vec![
        ("a".to_string(), ival(9)),
        ("b".to_string(), ival(8)),
    ])));
    let o3 = Value::Obj(heap.new_cell(HeapVal::Obj(vec![("a".to_string(), ival(1))])));

    let key = text(&mut heap, "a");
    assert_eq!(
        core_func_call("is_field", o1.dup(), &vec![key], &mut heap),
        Ok(bval(true))
    );
    let missing = text(&mut heap, "z");
    assert_eq!(
        core_func_call("is_field", o1.dup(), &vec![missing], &mut heap),
        Ok(bval(false))
    );
    assert_eq!(
        core_func_call("same", o1.dup(), &vec![o2], &mut heap),
        Ok(bval(true))
    );
    assert_eq!(
        core_func_call("same", o1, &vec![o3], &mut heap),
        Ok(bval(false))
    );
}

#[test]
fn object_equality_ignores_field_order() {
    // objects are mappings: the same fields in another insertion order are
    // still the same object
    let mut heap = Heap::new();
    let o1 = Value::Obj(heap.new_cell(HeapVal::Obj(vec![
        ("a".to_string(), ival(1)),
        ("b".to_string(), ival(2)),
    ])));
    let o2 = Value::Obj(heap.new_cell(HeapVal::Obj(vec![
        ("b".to_string(), ival(2)),
        ("a".to_string(), ival(1)),
    ])));
    assert_eq!(weak_eq_values(&o1, &o2, &heap), Ok(true));
    assert_eq!(strict_eq_values(&o1, &o2, &heap), Ok(true));

    let o3 = Value::Obj(heap.new_cell(HeapVal::Obj(vec![
        ("b".to_string(), ival(9)),
        ("a".to_string(), ival(1)),
    ])));
    assert_eq!(weak_eq_values(&o1, &o3, &heap), Ok(false));

    let o4 = Value::Obj(heap.new_cell(HeapVal::Obj(vec![("a".to_string(), ival(1))])));
    assert_eq!(weak_eq_values(&o1, &o4, &heap), Ok(false));
}

#[test]
fn same_ignores_field_order() {
    let mut heap = Heap::new();
    let o1 = Value::Obj(heap.new_cell(HeapVal::Obj(vec![
        ("a".to_string(), ival(1)),
        ("b".to_string(), ival(2)),
    ])));
    let o2 = Value::Obj(heap.new_cell(HeapVal::Obj(vec![
        ("b".to_string(), ival(7)),
        ("a".to_string(), ival(8)),
    ])));
    assert_eq!(
        core_func_call("same", o1, &vec![o2], &mut heap),
        Ok(bval(true))
    );
}
