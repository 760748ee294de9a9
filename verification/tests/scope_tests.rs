//! The environment's basic operations: declaring, reading, writing,
//! extending and reducing, and shadowing across frames.

use scriptrt::heap::Heap;
use scriptrt::scope::Scope;
use scriptrt::value::{Signal, VType, Value};

fn is_error(s: Signal) -> bool {
    matches!(s, Signal::Error(_))
}

fn is_expr_error(s: Result<Value, scriptrt::error::Error>) -> bool {
    s.is_err()
}

#[test]
fn declare_variable() {
    let mut state = Scope::new();

    assert_eq!(state.new_var("x", Value::Val(VType::I(30))), Signal::Done);
}

#[test]
fn read_variable() {
    let mut state = Scope::new();
    let heap = Heap::new();

    state.new_var("x", Value::Val(VType::I(30)));

    assert_eq!(state.get_var("x", &heap), Ok(Value::Val(VType::I(30))));
}

#[test]
fn read_undeclared_variable() {
    let state = Scope::new();
    let heap = Heap::new();

    assert!(is_expr_error(state.get_var("x", &heap)));
}

#[test]
fn set_undeclared_variable() {
    let mut state = Scope::new();
    let mut heap = Heap::new();

    assert!(is_error(state.set_var("x", Value::Val(VType::I(30)), &mut heap)));
}

#[test]
fn set_variable() {
    let mut state = Scope::new();
    let mut heap = Heap::new();

    state.new_var("x", Value::Val(VType::I(30)));

    assert_eq!(state.get_var("x", &heap), Ok(Value::Val(VType::I(30))));

    state.set_var("x", Value::Val(VType::B(true)), &mut heap);

    assert_eq!(state.get_var("x", &heap), Ok(Value::Val(VType::B(true))));
}

#[test]
fn set_multi_variables() {
    let mut state = Scope::new();
    let heap = Heap::new();

    state.new_var("x", Value::Val(VType::I(30)));

    state.new_var("y", Value::Val(VType::I(33)));

    assert_eq!(state.get_var("x", &heap), Ok(Value::Val(VType::I(30))));

    assert_eq!(state.get_var("y", &heap), Ok(Value::Val(VType::I(33))));
}

#[test]
fn extend_scope() {
    let mut state = Scope::new();
    let heap = Heap::new();

    state.extend();

    state.new_var("x", Value::Val(VType::I(30)));

    assert_eq!(state.get_var("x", &heap), Ok(Value::Val(VType::I(30))));

    state.reduce();

    assert!(is_expr_error(state.get_var("x", &heap)));
}

#[test]
fn shadow_variables() {
    let mut state = Scope::new();
    let heap = Heap::new();

    state.new_var("x", Value::Val(VType::I(30)));

    assert_eq!(state.get_var("x", &heap), Ok(Value::Val(VType::I(30))));

    state.extend();

    state.new_var("x", Value::Val(VType::I(25)));

    assert_eq!(state.get_var("x", &heap), Ok(Value::Val(VType::I(25))));
}

#[test]
fn shadow_variables_and_retract() {
    let mut state = Scope::new();
    let heap = Heap::new();

    state.new_var("x", Value::Val(VType::I(30)));

    assert_eq!(state.get_var("x", &heap), Ok(Value::Val(VType::I(30))));

    state.extend();

    state.new_var("x", Value::Val(VType::I(25)));

    assert_eq!(state.get_var("x", &heap), Ok(Value::Val(VType::I(25))));

    state.reduce();

    assert_eq!(state.get_var("x", &heap), Ok(Value::Val(VType::I(30))));
}

#[test]
fn redeclare_in_same_frame_fails() {
    let mut state = Scope::new();

    assert_eq!(state.new_var("x", Value::Val(VType::I(1))), Signal::Done);
    assert!(is_error(state.new_var("x", Value::Val(VType::I(2)))));
}

#[test]
fn promotion_aliases_share_writes() {
    // Promoting a binding to a shared cell, then writing through the name,
    // is visible through any other binding holding the same cell.
    let mut state = Scope::new();
    let mut heap = Heap::new();

    state.new_var("x", Value::Val(VType::I(7)));
    let cell = state.get_ref("x", &mut heap).unwrap();
    assert!(matches!(cell, Value::Ref(_)));

    // a second handle to the same cell, under another name
    state.new_var("y", cell.dup());

    state.set_var("x", Value::Val(VType::I(42)), &mut heap);

    assert_eq!(state.get_var("y", &heap), Ok(Value::Val(VType::I(42))));
    assert_eq!(state.get_var("x", &heap), Ok(Value::Val(VType::I(42))));
}

#[test]
fn capture_shares_cells_with_scope() {
    // Closure capture promotes bindings; the captured pair holds the same
    // cell the scope does, so later writes through the scope are seen
    // through the capture.
    let mut state = Scope::new();
    let mut heap = Heap::new();

    state.new_var("x", Value::Val(VType::I(1)));
    let cap = state.get_scope_refs(&mut heap);

    let captured_x = cap
        .iter()
        .find(|p| p.0 == "x")
        .map(|p| p.1.dup())
        .unwrap();
    assert!(matches!(captured_x, Value::Ref(_)));

    state.set_var("x", Value::Val(VType::I(9)), &mut heap);

    // reading through the captured cell sees the write
    if let Value::Ref(ix) = captured_x {
        match heap.get(ix) {
            scriptrt::heap::HeapVal::Prim(p) => assert_eq!(*p, VType::I(9)),
            _ => panic!("expected a primitive cell"),
        }
    }
}
