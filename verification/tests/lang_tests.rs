//! End-to-end evaluation: expressions, statements, functions and closures.

use std::rc::Rc;

use scriptrt::ast::{CaseType, Expr, FuncRoot, Script, ScriptExpr, ScriptPackage, Statement, ValExpr};
use scriptrt::callable::Callable;
use scriptrt::error::{RunCode, Type};
use scriptrt::eval::EVAL_FUEL;
use scriptrt::function::FuncMap;
use scriptrt::heap::Heap;
use scriptrt::scope::Scope;
use scriptrt::value::{Signal, VType, Value};

fn num(i: i64) -> Expr {
    Expr::Val(ValExpr::Int(i))
}

fn var(n: &str) -> Expr {
    Expr::Val(ValExpr::QualId("main".to_string(), n.to_string()))
}

fn is_run_code(e: &scriptrt::error::Error, c: RunCode) -> bool {
    matches!(e.code(), Type::RunTime(cc) if *cc == c)
}

#[test]
fn add_int_consts() {
    let mut state = Scope::new();
    let mut heap = Heap::new();
    let f = FuncMap::new();

    let add = Expr::Add(Box::new(num(25)), Box::new(num(12)));

    assert_eq!(
        add.eval(&mut state, &mut heap, &f, EVAL_FUEL),
        Ok(Value::Val(VType::I(37)))
    );
}

#[test]
fn add_int_to_text() {
    let mut state = Scope::new();
    let mut heap = Heap::new();
    let f = FuncMap::new();

    let add = Expr::Add(
        Box::new(num(25)),
        Box::new(Expr::Val(ValExpr::Text(" twenty five".to_string()))),
    );

    let res = add.eval(&mut state, &mut heap, &f, EVAL_FUEL).unwrap();
    match res {
        Value::Str(ix) => match heap.get(ix) {
            scriptrt::heap::HeapVal::Text(t) => assert_eq!(t, "25 twenty five"),
            _ => panic!("expected text cell"),
        },
        _ => panic!("expected text value"),
    }
}

#[test]
fn divide_by_zero_reported() {
    let mut state = Scope::new();
    let mut heap = Heap::new();
    let f = FuncMap::new();

    let div = Expr::Div(Box::new(num(5)), Box::new(num(0)));
    let err = div.eval(&mut state, &mut heap, &f, EVAL_FUEL).unwrap_err();
    assert!(is_run_code(&err, RunCode::DivideByZero));
}

#[test]
fn range_builds_list() {
    let mut state = Scope::new();
    let mut heap = Heap::new();
    let f = FuncMap::new();

    let range = Expr::Range(Box::new(num(1)), None, Box::new(num(5)));
    let res = range.eval(&mut state, &mut heap, &f, EVAL_FUEL).unwrap();
    match res {
        Value::List(ix) => match heap.get(ix) {
            scriptrt::heap::HeapVal::List(el) => {
                let got: Vec<Value> = el.iter().map(|v| v.dup()).collect();
                assert_eq!(
                    got,
                    vec![
                        Value::Val(VType::I(1)),
                        Value::Val(VType::I(2)),
                        Value::Val(VType::I(3)),
                        Value::Val(VType::I(4))
                    ]
                );
            }
            _ => panic!("expected list cell"),
        },
        _ => panic!("expected list value"),
    }
}

#[test]
fn invalid_range_reported() {
    let mut state = Scope::new();
    let mut heap = Heap::new();
    let f = FuncMap::new();

    let range = Expr::Range(Box::new(num(5)), None, Box::new(num(1)));
    let err = range.eval(&mut state, &mut heap, &f, EVAL_FUEL).unwrap_err();
    assert!(is_run_code(&err, RunCode::InvalidRange));
}

// A `break;` directly inside a function body (no enclosing loop) is
// `CannotBreak`, not a silent no-op; same for `continue;`.
#[test]
fn stray_break_is_an_error() {
    let mut heap = Heap::new();
    let f = FuncMap::new();

    let body = FuncRoot::new(vec![], vec![Statement::Break]);
    let err = body
        .call(&vec![], &f, &mut heap, None, EVAL_FUEL)
        .unwrap_err();
    assert!(is_run_code(&err, RunCode::CannotBreak));
}

#[test]
fn stray_continue_is_an_error() {
    let mut heap = Heap::new();
    let f = FuncMap::new();

    let body = FuncRoot::new(vec![], vec![Statement::Continue]);
    let err = body
        .call(&vec![], &f, &mut heap, None, EVAL_FUEL)
        .unwrap_err();
    assert!(is_run_code(&err, RunCode::CannotContinue));
}

// Frame-count invariance: a block that returns out of a doubly-nested block
// leaves the environment with exactly the frames it had before.
#[test]
fn scope_leak_safety_on_early_return() {
    let mut state = Scope::new();
    let mut heap = Heap::new();
    let f = FuncMap::new();

    let inner = Statement::Scope(vec![Statement::Scope(vec![Statement::Return(Some(num(1)))])]);
    let frames_before = state.vars.len();
    let sig = inner.run(&mut state, &mut heap, &f, EVAL_FUEL);
    assert!(matches!(sig, Signal::Return(_)));
    assert_eq!(state.vars.len(), frames_before);
}

#[test]
fn scope_leak_safety_on_error() {
    let mut state = Scope::new();
    let mut heap = Heap::new();
    let f = FuncMap::new();

    let failing = Statement::Scope(vec![Statement::Scope(vec![Statement::Expr(Expr::Div(
        Box::new(num(1)),
        Box::new(num(0)),
    ))])]);
    let frames_before = state.vars.len();
    let sig = failing.run(&mut state, &mut heap, &f, EVAL_FUEL);
    assert!(matches!(sig, Signal::Error(_)));
    assert_eq!(state.vars.len(), frames_before);
}

// End-to-end recursion:
// func f(x){ if x > 1 { return x * f(x-1); } else { return 1; } }; f(5) == 120
#[test]
fn recursive_factorial() {
    let mut heap = Heap::new();
    let mut f = FuncMap::new();

    let body = FuncRoot::new(
        vec!["x".to_string()],
        vec![Statement::If(
            Expr::GThan(Box::new(var("x")), Box::new(num(1))),
            Box::new(Statement::Return(Some(Expr::Mul(
                Box::new(var("x")),
                Box::new(Expr::FuncCall(
                    Box::new(Expr::Val(ValExpr::QualId(
                        "main".to_string(),
                        "f".to_string(),
                    ))),
                    vec![Expr::Sub(Box::new(var("x")), Box::new(num(1)))],
                )),
            )))),
            Some(Box::new(Statement::Return(Some(num(1))))),
        )],
    );

    f.attach_package("main", ScriptPackage::new(vec![("f".to_string(), body)]));

    let res = f
        .call_fn("main", "f", &vec![Value::Val(VType::I(5))], &mut heap, EVAL_FUEL)
        .unwrap();
    assert_eq!(res, Value::Val(VType::I(120)));
}

#[test]
fn while_loop_counts() {
    // var-free check through a script: i starts at 0 and climbs to 5
    let mut state = Scope::new();
    let mut heap = Heap::new();
    let f = FuncMap::new();

    let prog = Statement::Scope(vec![
        Statement::VarDecl("i".to_string(), Some(num(0))),
        Statement::While(
            Expr::LThan(Box::new(var("i")), Box::new(num(5))),
            Box::new(Statement::Assign(
                "i".to_string(),
                Expr::Add(Box::new(var("i")), Box::new(num(1))),
                None,
            )),
        ),
        Statement::Return(Some(var("i"))),
    ]);
    let sig = prog.run(&mut state, &mut heap, &f, EVAL_FUEL);
    assert_eq!(sig, Signal::Return(Value::Val(VType::I(5))));
}

#[test]
fn for_loop_sums_list() {
    let mut state = Scope::new();
    let mut heap = Heap::new();
    let f = FuncMap::new();

    let prog = Statement::Scope(vec![
        Statement::VarDecl("sum".to_string(), Some(num(0))),
        Statement::For(
            "e".to_string(),
            Expr::Val(ValExpr::List(vec![num(1), num(2), num(3)])),
            Box::new(Statement::Assign(
                "sum".to_string(),
                Expr::Add(Box::new(var("sum")), Box::new(var("e"))),
                None,
            )),
        ),
        Statement::Return(Some(var("sum"))),
    ]);
    let sig = prog.run(&mut state, &mut heap, &f, EVAL_FUEL);
    assert_eq!(sig, Signal::Return(Value::Val(VType::I(6))));
}

#[test]
fn match_binding_and_value_cases() {
    let mut state = Scope::new();
    let mut heap = Heap::new();
    let f = FuncMap::new();

    // match 3 { 2 => return 20, 3 => return 30 }
    let prog = Statement::Match(
        num(3),
        vec![
            (CaseType::Value(num(2)), Statement::Return(Some(num(20)))),
            (CaseType::Value(num(3)), Statement::Return(Some(num(30)))),
        ],
        None,
    );
    let sig = prog.run(&mut state, &mut heap, &f, EVAL_FUEL);
    assert_eq!(sig, Signal::Return(Value::Val(VType::I(30))));

    // a binding case always matches and sees the subject
    let prog2 = Statement::Match(
        num(7),
        vec![(
            CaseType::Var("it".to_string()),
            Statement::Return(Some(var("it"))),
        )],
        None,
    );
    let sig2 = prog2.run(&mut state, &mut heap, &f, EVAL_FUEL);
    assert_eq!(sig2, Signal::Return(Value::Val(VType::I(7))));
}

#[test]
fn closure_captures_defining_scope() {
    let mut state = Scope::new();
    let mut heap = Heap::new();
    let f = FuncMap::new();

    // var x = 4; var g = closure(){ return x; }; return g();
    let clos_body = FuncRoot::new(vec![], vec![Statement::Return(Some(var("x")))]);
    let prog = Statement::Scope(vec![
        Statement::VarDecl("x".to_string(), Some(num(4))),
        Statement::VarDecl(
            "g".to_string(),
            Some(Expr::Val(ValExpr::Closure(Rc::new(clos_body)))),
        ),
        Statement::Return(Some(Expr::FuncCall(Box::new(var("g")), vec![]))),
    ]);
    let sig = prog.run(&mut state, &mut heap, &f, EVAL_FUEL);
    assert_eq!(sig, Signal::Return(Value::Val(VType::I(4))));
}

#[test]
fn assignment_chain_writes_into_list() {
    let mut state = Scope::new();
    let mut heap = Heap::new();
    let f = FuncMap::new();

    // var l = [1, 2, 3]; l[1] = 9; return l[1];
    let prog = Statement::Scope(vec![
        Statement::VarDecl(
            "l".to_string(),
            Some(Expr::Val(ValExpr::List(vec![num(1), num(2), num(3)]))),
        ),
        Statement::Assign(
            "l".to_string(),
            num(9),
            Some(Box::new(scriptrt::ast::Assign::Index(num(1), None))),
        ),
        Statement::Return(Some(Expr::Index(Box::new(var("l")), Box::new(num(1))))),
    ]);
    let sig = prog.run(&mut state, &mut heap, &f, EVAL_FUEL);
    assert_eq!(sig, Signal::Return(Value::Val(VType::I(9))));
}

#[test]
fn script_entry_points() {
    let mut heap = Heap::new();
    let f = FuncMap::new();

    let script = Script::new(Statement::Expr(num(3)));
    assert_eq!(script.run(&f, &mut heap), Signal::Done);

    let empty = ScriptExpr::new(None);
    assert_eq!(empty.run(&f, &mut heap), Ok(Value::Null));

    let three = ScriptExpr::new(Some(num(3)));
    assert_eq!(three.run(&f, &mut heap), Ok(Value::Val(VType::I(3))));
}

#[test]
fn call_unknown_package_fails() {
    let mut heap = Heap::new();
    let f = FuncMap::new();
    let err = f
        .call_fn("nowhere", "f", &vec![], &mut heap, EVAL_FUEL)
        .unwrap_err();
    assert!(is_run_code(&err, RunCode::PackageNotFound));
}

#[test]
fn wrong_arity_fails() {
    let mut heap = Heap::new();
    let f = FuncMap::new();
    let body = FuncRoot::new(vec!["x".to_string()], vec![]);
    let err = body.call(&vec![], &f, &mut heap, None, EVAL_FUEL).unwrap_err();
    assert!(is_run_code(&err, RunCode::WrongNumberOfArguments));
}

#[test]
fn fall_through_yields_null() {
    let mut heap = Heap::new();
    let f = FuncMap::new();
    let body = FuncRoot::new(vec![], vec![Statement::Expr(num(1))]);
    assert_eq!(
        body.call(&vec![], &f, &mut heap, None, EVAL_FUEL),
        Ok(Value::Null)
    );
}

#[test]
fn object_fields_and_access() {
    let mut state = Scope::new();
    let mut heap = Heap::new();
    let f = FuncMap::new();

    // var o = object{a: 1}; o.a = 5; return o.a;
    let prog = Statement::Scope(vec![
        Statement::VarDecl(
            "o".to_string(),
            Some(Expr::Val(ValExpr::Obj(vec![("a".to_string(), num(1))]))),
        ),
        Statement::Assign(
            "o".to_string(),
            num(5),
            Some(Box::new(scriptrt::ast::Assign::Access(
                "a".to_string(),
                None,
            ))),
        ),
        Statement::Return(Some(Expr::Access(Box::new(var("o")), "a".to_string()))),
    ]);
    let sig = prog.run(&mut state, &mut heap, &f, EVAL_FUEL);
    assert_eq!(sig, Signal::Return(Value::Val(VType::I(5))));

    // a missing field is FieldNotFound
    let prog2 = Statement::Scope(vec![
        Statement::VarDecl(
            "o".to_string(),
            Some(Expr::Val(ValExpr::Obj(vec![("a".to_string(), num(1))]))),
        ),
        Statement::Return(Some(Expr::Access(Box::new(var("o")), "b".to_string()))),
    ]);
    match prog2.run(&mut state, &mut heap, &f, EVAL_FUEL) {
        Signal::Error(e) => assert!(is_run_code(&e, RunCode::FieldNotFound)),
        _ => panic!("expected an error"),
    }
}

#[test]
fn callable_wraps_values() {
    let mut heap = Heap::new();
    let mut f = FuncMap::new();
    let body = FuncRoot::new(vec![], vec![Statement::Return(Some(num(11)))]);
    f.attach_package("main", ScriptPackage::new(vec![("g".to_string(), body)]));

    let mut c = Callable::new(None);
    assert_eq!(c.call(&f, &vec![], &mut heap, EVAL_FUEL), Ok(Value::Null));

    c.set_value(Value::Func("main".to_string(), "g".to_string()));
    assert_eq!(
        c.call(&f, &vec![], &mut heap, EVAL_FUEL),
        Ok(Value::Val(VType::I(11)))
    );

    c.set_value(Value::Val(VType::I(3)));
    let err = c.call(&f, &vec![], &mut heap, EVAL_FUEL).unwrap_err();
    assert!(is_run_code(&err, RunCode::InvalidCall));
}

#[test]
fn qualified_name_falls_back_to_function_reference() {
    let mut state = Scope::new();
    let mut heap = Heap::new();
    let f = FuncMap::new();

    // an undeclared name resolves to a function reference into its package
    let e = Expr::Val(ValExpr::QualId("math".to_string(), "cos".to_string()));
    let v = e.eval(&mut state, &mut heap, &f, EVAL_FUEL).unwrap();
    assert_eq!(v, Value::Func("math".to_string(), "cos".to_string()));
    assert_eq!(v.render(&heap), "function{math::cos}");
}

#[test]
fn truthiness_of_conditions() {
    let mut state = Scope::new();
    let mut heap = Heap::new();
    let f = FuncMap::new();

    // a nonzero integer counts as true, zero as false, text is a type error
    let prog = Statement::If(
        num(2),
        Box::new(Statement::Return(Some(num(1)))),
        Some(Box::new(Statement::Return(Some(num(0))))),
    );
    assert_eq!(
        prog.run(&mut state, &mut heap, &f, EVAL_FUEL),
        Signal::Return(Value::Val(VType::I(1)))
    );

    let prog2 = Statement::If(
        num(0),
        Box::new(Statement::Return(Some(num(1)))),
        Some(Box::new(Statement::Return(Some(num(0))))),
    );
    assert_eq!(
        prog2.run(&mut state, &mut heap, &f, EVAL_FUEL),
        Signal::Return(Value::Val(VType::I(0)))
    );

    let prog3 = Statement::If(
        Expr::Val(ValExpr::Text("x".to_string())),
        Box::new(Statement::Return(Some(num(1)))),
        None,
    );
    match prog3.run(&mut state, &mut heap, &f, EVAL_FUEL) {
        Signal::Error(e) => assert!(is_run_code(&e, RunCode::TypeError)),
        _ => panic!("expected a type error"),
    }
}

#[test]
fn loop_break_and_continue_consumed() {
    let mut state = Scope::new();
    let mut heap = Heap::new();
    let f = FuncMap::new();

    // while true { break; } finishes as Done
    let prog = Statement::While(
        Expr::Val(ValExpr::Bool(true)),
        Box::new(Statement::Break),
    );
    assert_eq!(prog.run(&mut state, &mut heap, &f, EVAL_FUEL), Signal::Done);

    // a loop that only continues runs out of its budget instead of spinning
    let prog2 = Statement::While(
        Expr::Val(ValExpr::Bool(true)),
        Box::new(Statement::Continue),
    );
    match prog2.run(&mut state, &mut heap, &f, 1000) {
        Signal::Error(e) => assert!(is_run_code(&e, RunCode::RecursionLimit)),
        _ => panic!("expected the budget to run out"),
    }
}

#[test]
fn repeated_object_field_overwrites() {
    // a repeated field name in an object literal keeps the later binding
    let mut state = Scope::new();
    let mut heap = Heap::new();
    let f = FuncMap::new();

    let e = Expr::Val(ValExpr::Obj(vec![
        ("a".to_string(), num(1)),
        ("a".to_string(), num(2)),
    ]));
    let v = e.eval(&mut state, &mut heap, &f, EVAL_FUEL).unwrap();
    match &v {
        Value::Obj(ix) => match heap.get(*ix) {
            scriptrt::heap::HeapVal::Obj(fs) => assert_eq!(fs.len(), 1),
            _ => panic!("expected object cell"),
        },
        _ => panic!("expected object value"),
    }
    let field = Expr::Access(
        Box::new(Expr::Val(ValExpr::Obj(vec![
            ("a".to_string(), num(1)),
            ("a".to_string(), num(2)),
        ]))),
        "a".to_string(),
    );
    assert_eq!(
        field.eval(&mut state, &mut heap, &f, EVAL_FUEL),
        Ok(Value::Val(VType::I(2)))
    );
}

#[test]
fn for_over_non_list_is_a_type_error() {
    let mut state = Scope::new();
    let mut heap = Heap::new();
    let f = FuncMap::new();

    let prog = Statement::For(
        "e".to_string(),
        num(3),
        Box::new(Statement::Expr(num(1))),
    );
    match prog.run(&mut state, &mut heap, &f, EVAL_FUEL) {
        Signal::Error(e) => assert!(is_run_code(&e, RunCode::TypeError)),
        _ => panic!("expected a type error"),
    }
}

#[test]
fn assigning_to_an_absent_map_key_is_out_of_bounds() {
    let mut state = Scope::new();
    let mut heap = Heap::new();
    let f = FuncMap::new();

    // var m = map{}; m[1] = 2;  — the key was never inserted
    let prog = Statement::Scope(vec![
        Statement::VarDecl(
            "m".to_string(),
            Some(Expr::Val(ValExpr::Dict(vec![]))),
        ),
        Statement::Assign(
            "m".to_string(),
            num(2),
            Some(Box::new(scriptrt::ast::Assign::Index(num(1), None))),
        ),
    ]);
    match prog.run(&mut state, &mut heap, &f, EVAL_FUEL) {
        Signal::Error(e) => assert!(is_run_code(&e, RunCode::OutOfBounds)),
        _ => panic!("expected out of bounds"),
    }
}
