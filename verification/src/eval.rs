//! The evaluator: expressions to values, statements to control-flow signals.
//!
//! Evaluation is a single-threaded recursive descent over the tree.  Every
//! operation reports its error to the caller immediately; the statement
//! executor alone gives signals special treatment: `Error` and `Return`
//! propagate past loops, `Continue` and `Break` are consumed by the nearest
//! loop, and a function boundary turns a stray `Continue`/`Break` into a
//! `CannotContinue`/`CannotBreak` error.
//!
//! Every function here guarantees the structural invariants the rest of the
//! crate builds on: the heap only gains cells (and no cell changes kind), the
//! heap and the scope stay well formed, and — the scope-leak-safety law —
//! running any statement leaves the scope's frame count exactly as it was,
//! whichever way the statement ends.  Beyond that, each driver pins its
//! value behaviour on the input families whose sub-evaluations the contracts
//! already fix: declarations, writes, jump statements, literal operands and
//! conditions, leading body statements, empty bodies and blocks.  What a
//! compound program computes beyond those families follows from the exact
//! contracts of the helpers each arm delegates to, not from the driver's
//! own clauses.
//!
//! Termination is enforced by fuel: each loop iteration and each function
//! call consumes some; running out reports `RecursionLimit`.  The semantics
//! of each operation lives in the helper it delegates to (`ops`, `compare`,
//! `builtins`, `scope`, `hash`), each of which carries an exact contract.

use vstd::prelude::*;
use crate::ast::{Assign, CaseType, Expr, FuncRoot, Script, ScriptExpr, Statement, ValExpr};
use crate::builtins::{core_func_call, vals_valid};
use crate::compare::{strict_eq_values, weak_eq_values};
use crate::error::{mserr, Error, RunCode, Type};
use crate::function::{found_fn, FuncMap};
use crate::hash::hash_value;
use crate::heap::{
    cell_ok, heap_extends, heap_wf, lemma_heap_extends_trans, lemma_valid_value_extends,
    valid_value, Heap, HeapVal,
};
use crate::ops::{
    access_value, add_values, and_values, build_range, cmp_values, cond_truth, dict_scan,
    div_values, index_value, mod_values, mul_values, neg_value, not_value, or_values,
    resolve_index, sub_values, xor_values, CmpKind,
};
use crate::scope::{lemma_read_slot_valid, scope_valid, Scope};
use crate::value::{dup_bindings, dup_values, rc_dup, ExprRes, Signal, VType, Value};

verus! {

broadcast use crate::heap::axiom_heap_extends_trans, crate::heap::axiom_valid_value_extends,
    crate::scope::axiom_scope_valid_extends, vstd::std_specs::vec::axiom_vec_index_decreases;

/// The default evaluation budget of the entry points: a unit pays for one
/// loop iteration or one function call.
pub const EVAL_FUEL: u64 = 1000000;

impl Expr {
    /// Evaluate this expression in the given environment.
    #[verifier::loop_isolation(false)]
    pub fn eval(&self, state: &mut Scope, heap: &mut Heap, f: &FuncMap, fuel: u64) -> (r: ExprRes)
        requires
            scope_valid(old(state)@, old(heap)@),
            heap_wf(old(heap)@),
        ensures
            heap_extends(final(heap)@, old(heap)@),
            heap_wf(final(heap)@),
            scope_valid(final(state)@, final(heap)@),
            final(state)@.len() == old(state)@.len(),
            r matches Ok(v) ==> valid_value(v, final(heap)@),
            (*self) matches Expr::Val(ve) ==> (ve matches ValExpr::Int(i) ==> r == Ok::<
                Value,
                Error,
            >(Value::Val(VType::I(i))) && final(heap)@ == old(heap)@ && final(state)@ == old(
                state)@),
            (*self) matches Expr::Val(ve) ==> (ve matches ValExpr::Bool(b) ==> r == Ok::<
                Value,
                Error,
            >(Value::Val(VType::B(b))) && final(heap)@ == old(heap)@ && final(state)@ == old(
                state)@),
            (*self) matches Expr::Val(ve) ==> (ve is Null ==> r == Ok::<Value, Error>(Value::Null)
                && final(heap)@ == old(heap)@ && final(state)@ == old(state)@),
            (*self) matches Expr::Val(ve) ==> (ve matches ValExpr::Text(t)
                ==> crate::ops::text_result(r, old(heap)@, final(heap)@, t@) && final(state)@
                == old(state)@),
            (*self) matches Expr::Val(ve) ==> (ve matches ValExpr::QualId(p, nm)
                ==> (crate::scope::scope_lookup(old(state)@, nm@) matches Some(slot) ==> r == Ok::<
                Value,
                Error,
            >(crate::scope::read_slot(slot, old(heap)@)) && final(heap)@ == old(heap)@ && final(
                state)@ == old(state)@)),
            (*self) matches Expr::Val(ve) ==> (ve matches ValExpr::QualId(p, nm)
                ==> (crate::scope::scope_lookup(old(state)@, nm@) is None ==> (r matches Ok(v) && v
                matches Value::Func(pp, nn) && pp@ == p@ && nn@ == nm@) && final(heap)@ == old(
                heap)@ && final(state)@ == old(state)@)),
            (*self) matches Expr::Eq(l, rr) ==> ((*l) matches Expr::Val(lv) ==> (lv matches
            ValExpr::Int(x) ==> ((*rr) matches Expr::Val(rv) ==> (rv matches ValExpr::Int(y) ==> r
                == Ok::<Value, Error>(Value::Val(VType::B(x == y))) && final(heap)@ == old(heap)@
                && final(state)@ == old(state)@)))),
            (*self) matches Expr::NEq(l, rr) ==> ((*l) matches Expr::Val(lv) ==> (lv matches
            ValExpr::Int(x) ==> ((*rr) matches Expr::Val(rv) ==> (rv matches ValExpr::Int(y) ==> r
                == Ok::<Value, Error>(Value::Val(VType::B(x != y))) && final(heap)@ == old(heap)@
                && final(state)@ == old(state)@)))),
        decreases fuel, self, 3int,
    {
        match self {
            Expr::Val(ve) => eval_val(ve, state, heap, f, fuel),
            Expr::Range(s, st, e) => {
                let sv = match s.eval(state, heap, f, fuel) {
                    Ok(v) => v,
                    Err(e) => {
                        return Err(e);
                    },
                };
                let ev = match e.eval(state, heap, f, fuel) {
                    Ok(v) => v,
                    Err(e) => {
                        return Err(e);
                    },
                };
                let step: i64 = match st {
                    None => 1,
                    Some(se) => {
                        let stv = match se.eval(state, heap, f, fuel) {
                            Ok(v) => v,
                            Err(e) => {
                                return Err(e);
                            },
                        };
                        match stv {
                            Value::Val(VType::I(i)) => i,
                            Value::Ref(ix) => {
                                match heap.get(ix) {
                                    HeapVal::Prim(VType::I(i)) => *i,
                                    _ => {
                                        return mserr(Type::RunTime(RunCode::TypeError));
                                    },
                                }
                            },
                            _ => {
                                return mserr(Type::RunTime(RunCode::TypeError));
                            },
                        }
                    },
                };
                match (sv, ev) {
                    (Value::Val(VType::I(a)), Value::Val(VType::I(b))) => build_range(
                        a,
                        step,
                        b,
                        heap,
                    ),
                    _ => mserr(Type::RunTime(RunCode::TypeError)),
                }
            },
            Expr::Index(b, i) => {
                let bv = match b.eval(state, heap, f, fuel) {
                    Ok(v) => v,
                    Err(e) => {
                        return Err(e);
                    },
                };
                let ghost h1 = heap@;
                let iv = match i.eval(state, heap, f, fuel) {
                    Ok(v) => v,
                    Err(e) => {
                        return Err(e);
                    },
                };
                proof {
                    lemma_valid_value_extends(bv, h1, heap@);
                }
                index_value(&bv, &iv, heap)
            },
            Expr::Access(b, name) => {
                let bv = match b.eval(state, heap, f, fuel) {
                    Ok(v) => v,
                    Err(e) => {
                        return Err(e);
                    },
                };
                access_value(&bv, name.as_str(), heap)
            },
            Expr::Add(l, r) => {
                let (a, b) = match eval_two(l, r, state, heap, f, fuel, Ghost(*self)) {
                    Ok(p) => p,
                    Err(e) => {
                        return Err(e);
                    },
                };
                add_values(&a, &b, heap)
            },
            Expr::Sub(l, r) => {
                let (a, b) = match eval_two(l, r, state, heap, f, fuel, Ghost(*self)) {
                    Ok(p) => p,
                    Err(e) => {
                        return Err(e);
                    },
                };
                sub_values(&a, &b)
            },
            Expr::Mul(l, r) => {
                let (a, b) = match eval_two(l, r, state, heap, f, fuel, Ghost(*self)) {
                    Ok(p) => p,
                    Err(e) => {
                        return Err(e);
                    },
                };
                mul_values(&a, &b, heap)
            },
            Expr::Div(l, r) => {
                let (a, b) = match eval_two(l, r, state, heap, f, fuel, Ghost(*self)) {
                    Ok(p) => p,
                    Err(e) => {
                        return Err(e);
                    },
                };
                div_values(&a, &b)
            },
            Expr::Mod(l, r) => {
                let (a, b) = match eval_two(l, r, state, heap, f, fuel, Ghost(*self)) {
                    Ok(p) => p,
                    Err(e) => {
                        return Err(e);
                    },
                };
                mod_values(&a, &b)
            },
            Expr::Neg(e) => {
                let a = match e.eval(state, heap, f, fuel) {
                    Ok(v) => v,
                    Err(e) => {
                        return Err(e);
                    },
                };
                neg_value(&a)
            },
            Expr::Eq(l, r) => {
                let (a, b) = match eval_two(l, r, state, heap, f, fuel, Ghost(*self)) {
                    Ok(p) => p,
                    Err(e) => {
                        return Err(e);
                    },
                };
                match weak_eq_values(&a, &b, heap) {
                    Ok(x) => Ok(Value::Val(VType::B(x))),
                    Err(e) => Err(e),
                }
            },
            Expr::NEq(l, r) => {
                let (a, b) = match eval_two(l, r, state, heap, f, fuel, Ghost(*self)) {
                    Ok(p) => p,
                    Err(e) => {
                        return Err(e);
                    },
                };
                match weak_eq_values(&a, &b, heap) {
                    Ok(x) => Ok(Value::Val(VType::B(!x))),
                    Err(e) => Err(e),
                }
            },
            Expr::TrueEq(l, r) => {
                let (a, b) = match eval_two(l, r, state, heap, f, fuel, Ghost(*self)) {
                    Ok(p) => p,
                    Err(e) => {
                        return Err(e);
                    },
                };
                match strict_eq_values(&a, &b, heap) {
                    Ok(x) => Ok(Value::Val(VType::B(x))),
                    Err(e) => Err(e),
                }
            },
            Expr::TrueNEq(l, r) => {
                let (a, b) = match eval_two(l, r, state, heap, f, fuel, Ghost(*self)) {
                    Ok(p) => p,
                    Err(e) => {
                        return Err(e);
                    },
                };
                match strict_eq_values(&a, &b, heap) {
                    Ok(x) => Ok(Value::Val(VType::B(!x))),
                    Err(e) => Err(e),
                }
            },
            Expr::GThan(l, r) => {
                let (a, b) = match eval_two(l, r, state, heap, f, fuel, Ghost(*self)) {
                    Ok(p) => p,
                    Err(e) => {
                        return Err(e);
                    },
                };
                cmp_values(CmpKind::GThan, &a, &b)
            },
            Expr::GEq(l, r) => {
                let (a, b) = match eval_two(l, r, state, heap, f, fuel, Ghost(*self)) {
                    Ok(p) => p,
                    Err(e) => {
                        return Err(e);
                    },
                };
                cmp_values(CmpKind::GEq, &a, &b)
            },
            Expr::LThan(l, r) => {
                let (a, b) = match eval_two(l, r, state, heap, f, fuel, Ghost(*self)) {
                    Ok(p) => p,
                    Err(e) => {
                        return Err(e);
                    },
                };
                cmp_values(CmpKind::LThan, &a, &b)
            },
            Expr::LEq(l, r) => {
                let (a, b) = match eval_two(l, r, state, heap, f, fuel, Ghost(*self)) {
                    Ok(p) => p,
                    Err(e) => {
                        return Err(e);
                    },
                };
                cmp_values(CmpKind::LEq, &a, &b)
            },
            Expr::Not(e) => {
                let a = match e.eval(state, heap, f, fuel) {
                    Ok(v) => v,
                    Err(e) => {
                        return Err(e);
                    },
                };
                not_value(&a)
            },
            Expr::And(l, r) => {
                let (a, b) = match eval_two(l, r, state, heap, f, fuel, Ghost(*self)) {
                    Ok(p) => p,
                    Err(e) => {
                        return Err(e);
                    },
                };
                and_values(&a, &b)
            },
            Expr::Or(l, r) => {
                let (a, b) = match eval_two(l, r, state, heap, f, fuel, Ghost(*self)) {
                    Ok(p) => p,
                    Err(e) => {
                        return Err(e);
                    },
                };
                or_values(&a, &b)
            },
            Expr::Xor(l, r) => {
                let (a, b) = match eval_two(l, r, state, heap, f, fuel, Ghost(*self)) {
                    Ok(p) => p,
                    Err(e) => {
                        return Err(e);
                    },
                };
                xor_values(&a, &b)
            },
            Expr::FuncCall(b, argexprs) => {
                let base = match b.eval(state, heap, f, fuel) {
                    Ok(v) => v,
                    Err(e) => {
                        return Err(e);
                    },
                };
                let mut func_args: Vec<Value> = Vec::new();
                let n = argexprs.len();
                let mut i: usize = 0;
                let ghost h_base = heap@;
                while i < n
                    invariant
                        i <= n,
                        n == argexprs@.len(),
                        *self == Expr::FuncCall(*b, *argexprs),
                        scope_valid(state@, heap@),
                        heap_wf(heap@),
                        heap_extends(heap@, old(heap)@),
                        heap_extends(heap@, h_base),
                        valid_value(base, heap@),
                        state@.len() == old(state)@.len(),
                        vals_valid(func_args@, heap@),
                    decreases fuel, *argexprs, 4 * ((n - i) as int) + 3,
                {
                    proof {
                        vstd::std_specs::vec::axiom_vec_index_decreases(*argexprs, i as int);
                    }
                    let ghost h_pre = heap@;
                    let av = match argexprs[i].eval(state, heap, f, fuel) {
                        Ok(v) => v,
                        Err(e) => {
                            return Err(e);
                        },
                    };
                    proof {
                        lemma_heap_extends_trans(heap@, h_pre, old(heap)@);
                        lemma_heap_extends_trans(heap@, h_pre, h_base);
                        lemma_valid_value_extends(base, h_pre, heap@);
                        assert forall|k: int| 0 <= k < func_args@.len() implies valid_value(
                            #[trigger] func_args@[k],
                            heap@,
                        ) by {
                            lemma_valid_value_extends(func_args@[k], h_pre, heap@);
                        }
                    }
                    func_args.push(av);
                    i += 1;
                }
                if fuel == 0 {
                    return mserr(Type::RunTime(RunCode::RecursionLimit));
                }
                match base {
                    Value::Func(package, name) => f.call_fn(
                        package.as_str(),
                        name.as_str(),
                        &func_args,
                        heap,
                        fuel - 1,
                    ),
                    Value::Closure(func, ci) => {
                        let captured = match heap.get(ci) {
                            HeapVal::Capture(cap) => dup_bindings(cap),
                            _ => {
                                proof {
                                    assert(false);
                                }
                                Vec::new()
                            },
                        };
                        proof {
                            assert(cell_ok(heap@[ci as int], heap@));
                            assert forall|k: int| 0 <= k < captured@.len() implies valid_value(
                                (#[trigger] captured@[k]).1,
                                heap@,
                            ) by {
                                assert(captured@[k].1 == heap@[ci as int]->Capture_0@[k].1);
                            }
                        }
                        func.call(&func_args, f, heap, Some(&captured), fuel - 1)
                    },
                    _ => mserr(Type::RunTime(RunCode::InvalidCall)),
                }
            },
            Expr::CoreFuncCall(name, b, argexprs) => {
                let base = match b.eval(state, heap, f, fuel) {
                    Ok(v) => v,
                    Err(e) => {
                        return Err(e);
                    },
                };
                let mut func_args: Vec<Value> = Vec::new();
                let n = argexprs.len();
                let mut i: usize = 0;
                while i < n
                    invariant
                        i <= n,
                        n == argexprs@.len(),
                        *self == Expr::CoreFuncCall(*name, *b, *argexprs),
                        scope_valid(state@, heap@),
                        heap_wf(heap@),
                        heap_extends(heap@, old(heap)@),
                        valid_value(base, heap@),
                        state@.len() == old(state)@.len(),
                        vals_valid(func_args@, heap@),
                    decreases fuel, *argexprs, 4 * ((n - i) as int) + 3,
                {
                    proof {
                        vstd::std_specs::vec::axiom_vec_index_decreases(*argexprs, i as int);
                    }
                    let ghost h_pre = heap@;
                    let av = match argexprs[i].eval(state, heap, f, fuel) {
                        Ok(v) => v,
                        Err(e) => {
                            return Err(e);
                        },
                    };
                    proof {
                        lemma_heap_extends_trans(heap@, h_pre, old(heap)@);
                        lemma_valid_value_extends(base, h_pre, heap@);
                        assert forall|k: int| 0 <= k < func_args@.len() implies valid_value(
                            #[trigger] func_args@[k],
                            heap@,
                        ) by {
                            lemma_valid_value_extends(func_args@[k], h_pre, heap@);
                        }
                    }
                    func_args.push(av);
                    i += 1;
                }
                core_func_call(name.as_str(), base, &func_args, heap)
            },
        }
    }
}

/// Evaluate two operand expressions, left first.
fn eval_two(
    l: &Expr,
    r: &Expr,
    state: &mut Scope,
    heap: &mut Heap,
    f: &FuncMap,
    fuel: u64,
    Ghost(parent): Ghost<Expr>,
) -> (res: Result<(Value, Value), Error>)
    requires
        scope_valid(old(state)@, old(heap)@),
        heap_wf(old(heap)@),
        decreases_to!(parent => *l),
        decreases_to!(parent => *r),
    ensures
        heap_extends(final(heap)@, old(heap)@),
        heap_wf(final(heap)@),
        scope_valid(final(state)@, final(heap)@),
        final(state)@.len() == old(state)@.len(),
        res matches Ok(p) ==> valid_value(p.0, final(heap)@) && valid_value(p.1, final(heap)@),
        res matches Ok(p) ==> ((*l) matches Expr::Val(lv) ==> (lv matches ValExpr::Int(i) ==> p.0
            == Value::Val(VType::I(i)))),
        res matches Ok(p) ==> ((*r) matches Expr::Val(rv) ==> (rv matches ValExpr::Int(j) ==> p.1
            == Value::Val(VType::I(j)))),
        (*l) matches Expr::Val(lv) ==> (lv matches ValExpr::Int(_) ==> ((*r) matches Expr::Val(rv)
            ==> (rv matches ValExpr::Int(_) ==> res is Ok && final(heap)@ == old(heap)@ && final(
            state)@ == old(state)@))),
    decreases fuel, parent, 2int,
{
    let a = match l.eval(state, heap, f, fuel) {
        Ok(v) => v,
        Err(e) => {
            return Err(e);
        },
    };
    let ghost h1 = heap@;
    let b = match r.eval(state, heap, f, fuel) {
        Ok(v) => v,
        Err(e) => {
            return Err(e);
        },
    };
    proof {
        lemma_valid_value_extends(a, h1, heap@);
        lemma_heap_extends_trans(heap@, h1, old(heap)@);
    }
    Ok((a, b))
}

/// Evaluate a literal or naming expression.
#[verifier::loop_isolation(false)]
fn eval_val(ve: &ValExpr, state: &mut Scope, heap: &mut Heap, f: &FuncMap, fuel: u64) -> (r:
    ExprRes)
    requires
        scope_valid(old(state)@, old(heap)@),
        heap_wf(old(heap)@),
    ensures
        heap_extends(final(heap)@, old(heap)@),
        heap_wf(final(heap)@),
        scope_valid(final(state)@, final(heap)@),
        final(state)@.len() == old(state)@.len(),
        r matches Ok(v) ==> valid_value(v, final(heap)@),
        (*ve) matches ValExpr::Int(i) ==> r == Ok::<Value, Error>(Value::Val(VType::I(i)))
            && final(heap)@ == old(heap)@ && final(state)@ == old(state)@,
        (*ve) matches ValExpr::Bool(b) ==> r == Ok::<Value, Error>(Value::Val(VType::B(b)))
            && final(heap)@ == old(heap)@ && final(state)@ == old(state)@,
        (*ve) is Null ==> r == Ok::<Value, Error>(Value::Null) && final(heap)@ == old(heap)@
            && final(state)@ == old(state)@,
        (*ve) matches ValExpr::Text(t) ==> crate::ops::text_result(r, old(heap)@, final(heap)@, t@)
            && final(state)@ == old(state)@,
        (*ve) matches ValExpr::QualId(p, nm) ==> (crate::scope::scope_lookup(old(state)@, nm@)
            matches Some(slot) ==> r == Ok::<Value, Error>(crate::scope::read_slot(slot, old(heap)@))
            && final(heap)@ == old(heap)@ && final(state)@ == old(state)@),
        (*ve) matches ValExpr::QualId(p, nm) ==> (crate::scope::scope_lookup(old(state)@, nm@)
            is None ==> (r matches Ok(v) && v matches Value::Func(pp, nn) && pp@ == p@ && nn@
            == nm@) && final(heap)@ == old(heap)@ && final(state)@ == old(state)@),
    decreases fuel, *ve, 2int,
{
    match ve {
        ValExpr::QualId(p, n) => {
            match state.get_var(n.as_str(), heap) {
                Ok(v) => {
                    proof {
                        if crate::scope::scope_lookup(state@, n@) is Some {
                            let slot = crate::scope::scope_lookup(state@, n@)->Some_0;
                            crate::scope::lemma_scope_frame_props(state@, n@);
                            crate::scope::lemma_frame_idx_props(
                                state@[crate::scope::scope_frame(state@, n@)],
                                n@,
                            );
                            assert(valid_value(slot, heap@));
                            lemma_read_slot_valid(slot, heap@);
                        }
                    }
                    Ok(v)
                },
                Err(_) => Ok(Value::Func(p.clone(), n.clone())),
            }
        },
        ValExpr::Ref(n) => {
            proof {
                vstd::std_specs::vec::axiom_spec_len(&heap.cells);
            }
            let r = state.get_ref(n.as_str(), heap);
            proof {
                lemma_get_ref_frame(old(state)@, old(heap)@, final(state)@, final(heap)@, n@, r);
            }
            r
        },
        ValExpr::Int(i) => Ok(Value::Val(VType::I(*i))),
        ValExpr::Bool(b) => Ok(Value::Val(VType::B(*b))),
        ValExpr::Null => Ok(Value::Null),
        ValExpr::Text(s) => {
            let ix = heap.new_cell(HeapVal::Text(s.clone()));
            Ok(Value::Str(ix))
        },
        ValExpr::Pair(l, r) => {
            let a = match l.eval(state, heap, f, fuel) {
                Ok(v) => v,
                Err(e) => {
                    return Err(e);
                },
            };
            let ghost h1 = heap@;
            let b = match r.eval(state, heap, f, fuel) {
                Ok(v) => v,
                Err(e) => {
                    return Err(e);
                },
            };
            proof {
                lemma_valid_value_extends(a, h1, heap@);
                lemma_heap_extends_trans(heap@, h1, old(heap)@);
            }
            let ca = heap.new_cell(HeapVal::Cell(a));
            proof {
                lemma_valid_value_extends(b, heap@.drop_last(), heap@);
            }
            let cb = heap.new_cell(HeapVal::Cell(b));
            proof {
                lemma_heap_extends_trans(heap@, heap@.drop_last(), old(heap)@);
            }
            Ok(Value::Pair(ca, cb))
        },
        ValExpr::List(es) => {
            let mut elems: Vec<Value> = Vec::new();
            let n = es.len();
            let mut i: usize = 0;
            while i < n
                invariant
                    i <= n,
                    n == es@.len(),
                    *ve == ValExpr::List(*es),
                    scope_valid(state@, heap@),
                    heap_wf(heap@),
                    heap_extends(heap@, old(heap)@),
                    state@.len() == old(state)@.len(),
                    vals_valid(elems@, heap@),
                decreases fuel, *es, 4 * ((n - i) as int) + 3,
            {
                proof {
                    vstd::std_specs::vec::axiom_vec_index_decreases(*es, i as int);
                }
                let ghost h_pre = heap@;
                let ev = match es[i].eval(state, heap, f, fuel) {
                    Ok(v) => v,
                    Err(e) => {
                        return Err(e);
                    },
                };
                proof {
                    lemma_heap_extends_trans(heap@, h_pre, old(heap)@);
                    assert forall|k: int| 0 <= k < elems@.len() implies valid_value(
                        #[trigger] elems@[k],
                        heap@,
                    ) by {
                        lemma_valid_value_extends(elems@[k], h_pre, heap@);
                    }
                }
                elems.push(ev);
                i += 1;
            }
            let ix = heap.new_cell(HeapVal::List(elems));
            Ok(Value::List(ix))
        },
        ValExpr::Obj(fs) => {
            let mut fields: Vec<(String, Value)> = Vec::new();
            let n = fs.len();
            let mut i: usize = 0;
            while i < n
                invariant
                    i <= n,
                    n == fs@.len(),
                    *ve == ValExpr::Obj(*fs),
                    scope_valid(state@, heap@),
                    heap_wf(heap@),
                    heap_extends(heap@, old(heap)@),
                    state@.len() == old(state)@.len(),
                    forall|k: int|
                        0 <= k < fields@.len() ==> valid_value((#[trigger] fields@[k]).1, heap@),
                decreases fuel, *fs, 4 * ((n - i) as int) + 3,
            {
                proof {
                    vstd::std_specs::vec::axiom_vec_index_decreases(*fs, i as int);
                }
                let ghost h_pre = heap@;
                let ev = match fs[i].1.eval(state, heap, f, fuel) {
                    Ok(v) => v,
                    Err(e) => {
                        return Err(e);
                    },
                };
                proof {
                    lemma_heap_extends_trans(heap@, h_pre, old(heap)@);
                    assert forall|k: int| 0 <= k < fields@.len() implies valid_value(
                        (#[trigger] fields@[k]).1,
                        heap@,
                    ) by {
                        lemma_valid_value_extends(fields@[k].1, h_pre, heap@);
                    }
                }
                // a repeated field name overwrites the earlier binding
                let nm = fs[i].0.clone();
                match crate::ops::obj_scan(&fields, nm.as_str()) {
                    Some(j) => {
                        fields.set(j, (nm, ev));
                    },
                    None => {
                        fields.push((nm, ev));
                    },
                }
                i += 1;
            }
            let ix = heap.new_cell(HeapVal::Obj(fields));
            Ok(Value::Obj(ix))
        },
        ValExpr::Dict(ps) => {
            let mut entries: Vec<(u64, Value, Value)> = Vec::new();
            let n = ps.len();
            let mut i: usize = 0;
            while i < n
                invariant
                    i <= n,
                    n == ps@.len(),
                    *ve == ValExpr::Dict(*ps),
                    scope_valid(state@, heap@),
                    heap_wf(heap@),
                    heap_extends(heap@, old(heap)@),
                    state@.len() == old(state)@.len(),
                    forall|k: int|
                        0 <= k < entries@.len() ==> valid_value((#[trigger] entries@[k]).1, heap@)
                            && valid_value(entries@[k].2, heap@),
                decreases fuel, *ps, 4 * ((n - i) as int) + 3,
            {
                proof {
                    vstd::std_specs::vec::axiom_vec_index_decreases(*ps, i as int);
                }
                let ghost h_pre = heap@;
                let kv = match ps[i].0.eval(state, heap, f, fuel) {
                    Ok(v) => v,
                    Err(e) => {
                        return Err(e);
                    },
                };
                let hk = match hash_value(&kv, heap) {
                    Ok(hk) => hk,
                    Err(e) => {
                        return Err(e);
                    },
                };
                let ghost h_mid = heap@;
                let vv = match ps[i].1.eval(state, heap, f, fuel) {
                    Ok(v) => v,
                    Err(e) => {
                        return Err(e);
                    },
                };
                proof {
                    lemma_heap_extends_trans(heap@, h_mid, h_pre);
                    lemma_heap_extends_trans(heap@, h_pre, old(heap)@);
                    lemma_valid_value_extends(kv, h_mid, heap@);
                    assert forall|k: int| 0 <= k < entries@.len() implies valid_value(
                        (#[trigger] entries@[k]).1,
                        heap@,
                    ) && valid_value(entries@[k].2, heap@) by {
                        lemma_valid_value_extends(entries@[k].1, h_pre, heap@);
                        lemma_valid_value_extends(entries@[k].2, h_pre, heap@);
                    }
                }
                match dict_scan(&entries, hk) {
                    Some(j) => {
                        entries.set(j, (hk, kv, vv));
                    },
                    None => {
                        entries.push((hk, kv, vv));
                    },
                }
                i += 1;
            }
            let ix = heap.new_cell(HeapVal::Dict(entries));
            Ok(Value::Dict(ix))
        },
        ValExpr::Closure(fr) => {
            let cap = state.get_scope_refs(heap);
            proof {
                crate::heap::lemma_appended_only_extends(heap@, old(heap)@);
                assert forall|k: int| 0 <= k < cap@.len() implies valid_value(
                    (#[trigger] cap@[k]).1,
                    heap@,
                ) by {
                    assert(crate::scope::frame_model(cap)[k].1 == cap@[k].1);
                    assert(crate::scope::scope_lookup(
                        state@,
                        crate::scope::frame_model(cap)[k].0,
                    ) == Some(crate::scope::frame_model(cap)[k].1));
                    crate::scope::lemma_scope_frame_props(
                        state@,
                        crate::scope::frame_model(cap)[k].0,
                    );
                    crate::scope::lemma_frame_idx_props(
                        state@[crate::scope::scope_frame(
                            state@,
                            crate::scope::frame_model(cap)[k].0,
                        )],
                        crate::scope::frame_model(cap)[k].0,
                    );
                }
            }
            let ci = heap.new_cell(HeapVal::Capture(cap));
            Ok(Value::Closure(rc_dup(fr), ci))
        },
    }
}

/// After promotion-on-read, the scope still has the same frame shape and
/// every slot is valid against the grown heap.
proof fn lemma_get_ref_frame(
    vs1: Seq<Seq<(Seq<char>, Value)>>,
    h1: Seq<HeapVal>,
    vs2: Seq<Seq<(Seq<char>, Value)>>,
    h2: Seq<HeapVal>,
    n: Seq<char>,
    r: ExprRes,
)
    requires
        scope_valid(vs1, h1),
        heap_wf(h1),
        h1.len() <= usize::MAX as int,
        crate::scope::scope_lookup(vs1, n) is None ==> vs2 == vs1 && h2 == h1 && r is Err,
        crate::scope::scope_lookup(vs1, n) matches Some(Value::Val(p)) ==> h2 == h1.push(
            HeapVal::Prim(p),
        ) && vs2 =~~= vs1.update(
            crate::scope::scope_frame(vs1, n),
            vs1[crate::scope::scope_frame(vs1, n)].update(
                crate::scope::frame_idx(vs1[crate::scope::scope_frame(vs1, n)], n),
                (n, Value::Ref(h1.len() as usize)),
            ),
        ) && r == Ok::<Value, Error>(Value::Ref(h1.len() as usize)),
        crate::scope::scope_lookup(vs1, n) is Some && !(crate::scope::scope_lookup(vs1, n)->Some_0
            is Val) ==> vs2 == vs1 && h2 == h1 && r == Ok::<Value, Error>(
            crate::scope::scope_lookup(vs1, n)->Some_0,
        ),
    ensures
        heap_extends(h2, h1),
        heap_wf(h2),
        scope_valid(vs2, h2),
        vs2.len() == vs1.len(),
        r matches Ok(v) ==> valid_value(v, h2),
{
    match crate::scope::scope_lookup(vs1, n) {
        Some(slot) => {
            crate::scope::lemma_scope_frame_props(vs1, n);
            let j = crate::scope::scope_frame(vs1, n);
            crate::scope::lemma_frame_idx_props(vs1[j], n);
            let fi = crate::scope::frame_idx(vs1[j], n);
            assert(0 <= fi < vs1[j].len());
            assert(valid_value(vs1[j][fi].1, h1));
            assert(slot == vs1[j][fi].1);
            if slot is Val {
                let p = slot->Val_0;
                crate::heap::lemma_wf_alloc(h1, HeapVal::Prim(p));
                assert(heap_extends(h2, h1));
                assert(h2[h1.len() as int] == HeapVal::Prim(p));
                assert(valid_value(Value::Ref(h1.len() as usize), h2));
                assert forall|jj: int, ii: int|
                    0 <= jj < vs2.len() && 0 <= ii < vs2[jj].len() implies valid_value(
                    #[trigger] vs2[jj][ii].1,
                    h2,
                ) by {
                    if jj == j && ii == fi {
                        assert(vs2[jj][ii].1 == Value::Ref(h1.len() as usize));
                    } else {
                        assert(vs2[jj][ii] == vs1[jj][ii]);
                        lemma_valid_value_extends(vs1[jj][ii].1, h1, h2);
                    }
                }
            } else {
                assert(valid_value(slot, h1));
            }
        },
        None => {},
    }
}

impl Statement {
    /// Run this statement.  Whatever signal comes out — normal completion,
    /// error, return, break or continue — the scope holds exactly as many
    /// frames afterwards as before (scope-leak safety).
    #[verifier::loop_isolation(false)]
    pub fn run(&self, state: &mut Scope, heap: &mut Heap, f: &FuncMap, fuel: u64) -> (r: Signal)
        requires
            scope_valid(old(state)@, old(heap)@),
            heap_wf(old(heap)@),
        ensures
            heap_extends(final(heap)@, old(heap)@),
            heap_wf(final(heap)@),
            scope_valid(final(state)@, final(heap)@),
            final(state)@.len() == old(state)@.len(),
            r matches Signal::Return(v) ==> valid_value(v, final(heap)@),
            (*self) is Continue ==> r is Continue && final(heap)@ == old(heap)@ && final(state)@
                == old(state)@,
            (*self) is Break ==> r is Break && final(heap)@ == old(heap)@ && final(state)@ == old(
                state)@,
            (*self) matches Statement::Return(e) ==> (e is None ==> r == Signal::Return(
                Value::Null,
            ) && final(heap)@ == old(heap)@ && final(state)@ == old(state)@),
            (*self) matches Statement::Return(e) ==> (e matches Some(e2) ==> (e2 matches Expr::Val(
                ve,
            ) ==> (ve matches ValExpr::Int(i) ==> r == Signal::Return(Value::Val(VType::I(i)))
                && final(heap)@ == old(heap)@ && final(state)@ == old(state)@))),
            (*self) matches Statement::Scope(stmts) ==> (stmts@.len() == 0 ==> r is Done && final(
                heap)@ == old(heap)@ && final(state)@ =~~= old(state)@),
            (*self) matches Statement::VarDecl(name, a) ==> (a is None ==> ((old(state)@.len() == 0
                ==> (r matches Signal::Error(e) && e.err_code == Type::Critical(
                crate::error::CriticalCode::ScopeError,
            )) && final(state)@ == old(state)@ && final(heap)@ == old(heap)@) && (old(
                state)@.len() > 0 && crate::scope::frame_idx(old(state)@.last(), name@) >= 0 ==> (r
                matches Signal::Error(e) && e.err_code == Type::RunTime(
                RunCode::VariableAlreadyDeclared,
            )) && final(state)@ == old(state)@ && final(heap)@ == old(heap)@) && (old(
                state)@.len() > 0 && crate::scope::frame_idx(old(state)@.last(), name@) == -1 ==> (
            r is Done) && final(heap)@ == old(heap)@ && final(state)@ =~~= old(state)@.update(
                old(state)@.len() - 1,
                old(state)@.last().push((name@, Value::Null)),
            )))),
            (*self) matches Statement::Assign(name, _, _) ==> (crate::scope::scope_lookup(
                old(state)@,
                name@,
            ) is None ==> (r matches Signal::Error(e) && e.err_code == Type::RunTime(
                RunCode::VariableNotDeclared,
            )) && final(state)@ == old(state)@ && final(heap)@ == old(heap)@),
            (*self) matches Statement::Assign(name, e2, ch) ==> (ch is None ==> (e2 matches
            Expr::Val(ve) ==> (ve matches ValExpr::Int(i) ==> (crate::scope::scope_lookup(
                old(state)@,
                name@,
            ) matches Some(Value::Ref(ix)) ==> r is Done && final(state)@ == old(state)@ && final(
                heap)@ == old(heap)@.update(ix as int, HeapVal::Prim(VType::I(i))))))),
            (*self) matches Statement::If(c, t, e) ==> (c matches Expr::Val(vc) ==> (vc matches
            ValExpr::Bool(b) ==> (!b && e is None ==> r is Done && final(state)@ == old(state)@
                && final(heap)@ == old(heap)@))),
            (*self) matches Statement::If(c, _, _) ==> (c matches Expr::Val(vc) ==> (vc matches
            ValExpr::Text(_) ==> (r matches Signal::Error(e) && e.err_code == Type::RunTime(
                RunCode::TypeError,
            )))),
            (*self) matches Statement::While(_, _) ==> (fuel == 0 ==> (r matches Signal::Error(e)
                && e.err_code == Type::RunTime(RunCode::RecursionLimit)) && final(state)@ == old(
                state)@ && final(heap)@ == old(heap)@),
            (*self) matches Statement::While(c, _) ==> (fuel > 0 ==> (c matches Expr::Val(vc) ==> (
            vc matches ValExpr::Bool(b) ==> (!b ==> r is Done && final(state)@ == old(state)@
                && final(heap)@ == old(heap)@)))),
            (*self) matches Statement::For(_, le, _) ==> (le matches Expr::Val(vle) ==> (vle
                matches ValExpr::Int(_) ==> (r matches Signal::Error(e) && e.err_code
                == Type::RunTime(RunCode::TypeError)) && final(state)@ == old(state)@ && final(
                heap)@ == old(heap)@)),
            (*self) matches Statement::For(_, le, _) ==> (le matches Expr::Val(vle) ==> (vle
                matches ValExpr::Bool(_) ==> (r matches Signal::Error(e) && e.err_code
                == Type::RunTime(RunCode::TypeError)) && final(state)@ == old(state)@ && final(
                heap)@ == old(heap)@)),
            (*self) matches Statement::For(_, le, _) ==> (le matches Expr::Val(vle) ==> (vle
                is Null ==> (r matches Signal::Error(e) && e.err_code == Type::RunTime(
                RunCode::TypeError,
            )) && final(state)@ == old(state)@ && final(heap)@ == old(heap)@)),
            (*self) matches Statement::For(_, le, _) ==> (le matches Expr::Val(vle) ==> (vle
                matches ValExpr::Text(_) ==> (r matches Signal::Error(e) && e.err_code
                == Type::RunTime(RunCode::TypeError)) && final(state)@ == old(state)@)),
            (*self) matches Statement::While(c, body) ==> (fuel > 0 ==> (c matches Expr::Val(vc)
                ==> (vc matches ValExpr::Bool(b) ==> (b && (*body) is Break ==> r is Done && final(
                state)@ == old(state)@ && final(heap)@ == old(heap)@)))),
            (*self) matches Statement::If(c, t, _) ==> (c matches Expr::Val(vc) ==> (vc matches
            ValExpr::Bool(b) ==> (b ==> ((*t) matches Statement::Return(oe2) ==> (oe2 is None ==> r
                == Signal::Return(Value::Null) && final(state)@ == old(state)@ && final(heap)@
                == old(heap)@))))),
            (*self) matches Statement::If(c, t, _) ==> (c matches Expr::Val(vc) ==> (vc matches
            ValExpr::Bool(b) ==> (b ==> ((*t) is Break ==> r is Break && final(state)@ == old(
                state)@ && final(heap)@ == old(heap)@)))),
            (*self) matches Statement::Match(c, cases, ow) ==> (c matches Expr::Val(vc) ==> (vc
                matches ValExpr::Int(_) ==> (cases@.len() == 0 && ow is None ==> r is Done
                && final(state)@ == old(state)@ && final(heap)@ == old(heap)@))),
            (*self) matches Statement::Match(c, cases, _) ==> (c matches Expr::Val(vc) ==> (vc
                matches ValExpr::Int(_) ==> (cases@.len() > 0 ==> (cases@[0].0 is Var ==> (
            cases@[0].1 matches Statement::Return(oe2) ==> (oe2 is None ==> r == Signal::Return(
                Value::Null,
            ))))))),
        decreases fuel, self, 3int,
    {
        match self {
            Statement::Scope(stmts) => {
                state.extend();
                proof {
                    lemma_extended_scope_valid(old(state)@, state@, heap@);
                }
                let ghost s_ext = state@;
                let n = stmts.len();
                let mut i: usize = 0;
                while i < n
                    invariant
                        i <= n,
                        n == stmts@.len(),
                        *self == Statement::Scope(*stmts),
                        scope_valid(state@, heap@),
                        heap_wf(heap@),
                        heap_extends(heap@, old(heap)@),
                        state@.len() == old(state)@.len() + 1,
                        n == 0 ==> state@ == s_ext && heap@ == old(heap)@,
                    decreases fuel, *stmts, 4 * ((n - i) as int) + 3,
                {
                    proof {
                        vstd::std_specs::vec::axiom_vec_index_decreases(*stmts, i as int);
                    }
                    let ghost h_pre = heap@;
                    match stmts[i].run(state, heap, f, fuel) {
                        Signal::Done => {
                            proof {
                                lemma_heap_extends_trans(heap@, h_pre, old(heap)@);
                            }
                        },
                        s => {
                            proof {
                                lemma_heap_extends_trans(heap@, h_pre, old(heap)@);
                            }
                            state.reduce();
                            return s;
                        },
                    }
                    i += 1;
                }
                state.reduce();
                proof {
                    if stmts@.len() == 0 {
                        assert(state@ =~~= old(state)@);
                    }
                }
                Signal::Done
            },
            Statement::VarDecl(name, assign) => {
                let val = match assign {
                    Some(e) => {
                        match e.eval(state, heap, f, fuel) {
                            Ok(v) => v,
                            Err(err) => {
                                return Signal::Error(err);
                            },
                        }
                    },
                    None => Value::Null,
                };
                let ghost pre = state@;
                let sig = state.new_var(name.as_str(), val);
                proof {
                    lemma_declared_scope_valid(pre, state@, heap@, name@, val);
                }
                sig
            },
            Statement::Assign(name, expr, child) => {
                let var = match state.get_var(name.as_str(), heap) {
                    Ok(v) => v,
                    Err(err) => {
                        return Signal::Error(err);
                    },
                };
                proof {
                    if crate::scope::scope_lookup(state@, name@) is Some {
                        let slot = crate::scope::scope_lookup(state@, name@)->Some_0;
                        crate::scope::lemma_scope_frame_props(state@, name@);
                        crate::scope::lemma_frame_idx_props(
                            state@[crate::scope::scope_frame(state@, name@)],
                            name@,
                        );
                        assert(valid_value(slot, heap@));
                        lemma_read_slot_valid(slot, heap@);
                    }
                }
                let ghost h1 = heap@;
                let val = match expr.eval(state, heap, f, fuel) {
                    Ok(v) => v,
                    Err(err) => {
                        return Signal::Error(err);
                    },
                };
                proof {
                    lemma_valid_value_extends(var, h1, heap@);
                }
                match child {
                    Some(op) => op.assign(var, val, state, heap, f, fuel),
                    None => {
                        let ghost pre_s = state@;
                        let ghost pre_h = heap@;
                        let sig = state.set_var(name.as_str(), val, heap);
                        proof {
                            lemma_set_var_valid(pre_s, pre_h, state@, heap@, name@, val);
                        }
                        sig
                    },
                }
            },
            Statement::Expr(e) => {
                match e.eval(state, heap, f, fuel) {
                    Ok(_) => Signal::Done,
                    Err(err) => Signal::Error(err),
                }
            },
            Statement::If(cond, then_stat, else_stat) => {
                let cv = match cond.eval(state, heap, f, fuel) {
                    Ok(v) => v,
                    Err(err) => {
                        return Signal::Error(err);
                    },
                };
                let t = match cond_truth(&cv) {
                    Ok(t) => t,
                    Err(err) => {
                        return Signal::Error(err);
                    },
                };
                if t {
                    let ghost h1 = heap@;
                    let r = then_stat.run(state, heap, f, fuel);
                    proof {
                        lemma_heap_extends_trans(heap@, h1, old(heap)@);
                    }
                    r
                } else {
                    match else_stat {
                        Some(s) => {
                            let ghost h1 = heap@;
                            let r = s.run(state, heap, f, fuel);
                            proof {
                                lemma_heap_extends_trans(heap@, h1, old(heap)@);
                            }
                            r
                        },
                        None => Signal::Done,
                    }
                }
            },
            Statement::Match(cond, cases, otherwise) => {
                let c = match cond.eval(state, heap, f, fuel) {
                    Ok(v) => v,
                    Err(err) => {
                        return Signal::Error(err);
                    },
                };
                let ghost s_ac = state@;
                let ghost h_ac = heap@;
                let n = cases.len();
                let mut i: usize = 0;
                while i < n
                    invariant
                        i <= n,
                        n == cases@.len(),
                        *self == Statement::Match(*cond, *cases, *otherwise),
                        scope_valid(state@, heap@),
                        heap_wf(heap@),
                        heap_extends(heap@, old(heap)@),
                        state@.len() == old(state)@.len(),
                        valid_value(c, heap@),
                        n == 0 ==> state@ == s_ac && heap@ == h_ac,
                        n > 0 && cases@[0].0 is Var ==> i == 0,
                    decreases fuel, *cases, 4 * ((n - i) as int) + 3,
                {
                    proof {
                        vstd::std_specs::vec::axiom_vec_index_decreases(*cases, i as int);
                    }
                    let ghost h_top = heap@;
                    match &cases[i].0 {
                        CaseType::Var(v) => {
                            let ghost pre_ext = state@;
                            state.extend();
                            proof {
                                lemma_extended_scope_valid(pre_ext, state@, heap@);
                            }
                            let ghost pre = state@;
                            state.new_var(v.as_str(), c.dup());
                            proof {
                                lemma_declared_scope_valid(pre, state@, heap@, v@, c);
                            }
                            let ret = cases[i].1.run(state, heap, f, fuel);
                            state.reduce();
                            proof {
                                lemma_heap_extends_trans(heap@, h_top, old(heap)@);
                            }
                            return ret;
                        },
                        CaseType::Value(vexpr) => {
                            let val = match vexpr.eval(state, heap, f, fuel) {
                                Ok(v) => v,
                                Err(err) => {
                                    return Signal::Error(err);
                                },
                            };
                            proof {
                                lemma_heap_extends_trans(heap@, h_top, old(heap)@);
                                lemma_valid_value_extends(c, h_top, heap@);
                            }
                            let eq = match weak_eq_values(&c, &val, heap) {
                                Ok(x) => x,
                                Err(err) => {
                                    return Signal::Error(err);
                                },
                            };
                            if eq {
                                return cases[i].1.run(state, heap, f, fuel);
                            }
                        },
                    }
                    i += 1;
                }
                match otherwise {
                    Some(s) => {
                        let ghost h1 = heap@;
                        let r = s.run(state, heap, f, fuel);
                        proof {
                            lemma_heap_extends_trans(heap@, h1, old(heap)@);
                        }
                        r
                    },
                    None => Signal::Done,
                }
            },
            Statement::While(cond, body) => {
                let mut fl = fuel;
                loop
                    invariant
                        scope_valid(state@, heap@),
                        heap_wf(heap@),
                        heap_extends(heap@, old(heap)@),
                        state@.len() == old(state)@.len(),
                        fl <= fuel,
                        (*cond) matches Expr::Val(vc) ==> (vc matches ValExpr::Bool(b) ==> (!b
                            ==> fl == fuel && state@ == old(state)@ && heap@ == old(heap)@)),
                        fuel == 0 ==> fl == 0 && state@ == old(state)@ && heap@ == old(heap)@,
                        (**body) is Break ==> fl == fuel && state@ == old(state)@ && heap@
                            == old(heap)@,
                        decreases_to!(fuel, *self, 3int => fuel, *cond, 3int),
                        decreases_to!(fuel, *self, 3int => fuel, **body, 3int),
                    decreases fl,
                {
                    if fl == 0 {
                        return Signal::Error(Error::new(Type::RunTime(RunCode::RecursionLimit)));
                    }
                    fl = fl - 1;
                    let ghost h_top = heap@;
                    let cv = match cond.eval(state, heap, f, fl) {
                        Ok(v) => v,
                        Err(err) => {
                            return Signal::Error(err);
                        },
                    };
                    let t = match cond_truth(&cv) {
                        Ok(t) => t,
                        Err(err) => {
                            return Signal::Error(err);
                        },
                    };
                    if !t {
                        proof {
                            lemma_heap_extends_trans(heap@, h_top, old(heap)@);
                        }
                        return Signal::Done;
                    }
                    let ghost h_mid = heap@;
                    match body.run(state, heap, f, fl) {
                        Signal::Done => {},
                        Signal::Continue => {},
                        Signal::Break => {
                            proof {
                                lemma_heap_extends_trans(heap@, h_mid, h_top);
                                lemma_heap_extends_trans(heap@, h_top, old(heap)@);
                            }
                            return Signal::Done;
                        },
                        s => {
                            proof {
                                lemma_heap_extends_trans(heap@, h_mid, h_top);
                                lemma_heap_extends_trans(heap@, h_top, old(heap)@);
                            }
                            return s;
                        },
                    }
                    proof {
                        lemma_heap_extends_trans(heap@, h_mid, h_top);
                        lemma_heap_extends_trans(heap@, h_top, old(heap)@);
                    }
                }
            },
            Statement::For(e_name, listexpr, body) => {
                let lv = match listexpr.eval(state, heap, f, fuel) {
                    Ok(v) => v,
                    Err(err) => {
                        return Signal::Error(err);
                    },
                };
                let l = match lv {
                    Value::List(l) => l,
                    _ => {
                        return Signal::Error(Error::new(Type::RunTime(RunCode::TypeError)));
                    },
                };
                // iterate the elements as of loop entry
                let elems = match heap.get(l) {
                    HeapVal::List(el) => dup_values(el),
                    _ => {
                        proof {
                            assert(false);
                        }
                        Vec::new()
                    },
                };
                proof {
                    assert(cell_ok(heap@[l as int], heap@));
                }
                let ghost pre_ext = state@;
                state.extend();
                proof {
                    lemma_extended_scope_valid(pre_ext, state@, heap@);
                }
                let ghost pre = state@;
                state.new_var(e_name.as_str(), Value::Null);
                proof {
                    lemma_declared_scope_valid(pre, state@, heap@, e_name@, Value::Null);
                }
                let n = elems.len();
                let mut i: usize = 0;
                while i < n
                    invariant
                        i <= n,
                        n == elems@.len(),
                        *self == Statement::For(*e_name, *listexpr, *body),
                        scope_valid(state@, heap@),
                        heap_wf(heap@),
                        heap_extends(heap@, old(heap)@),
                        state@.len() == old(state)@.len() + 1,
                        forall|k: int| 0 <= k < n ==> valid_value(#[trigger] elems@[k], heap@),
                    decreases fuel, **body, 4 * ((n - i) as int) + 3,
                {
                    let ghost h_top = heap@;
                    let ghost pre_s = state@;
                    let sig = state.set_var(e_name.as_str(), elems[i].dup(), heap);
                    proof {
                        lemma_set_var_valid(pre_s, h_top, state@, heap@, e_name@, elems@[i as int]);
                        assert forall|k: int| 0 <= k < n implies valid_value(
                            #[trigger] elems@[k],
                            heap@,
                        ) by {
                            lemma_valid_value_extends(elems@[k], h_top, heap@);
                        }
                    }
                    let ghost h_set = heap@;
                    match body.run(state, heap, f, fuel) {
                        Signal::Done => {},
                        Signal::Continue => {},
                        Signal::Break => {
                            proof {
                                lemma_heap_extends_trans(heap@, h_set, h_top);
                                lemma_heap_extends_trans(heap@, h_top, old(heap)@);
                            }
                            state.reduce();
                            return Signal::Done;
                        },
                        s => {
                            proof {
                                lemma_heap_extends_trans(heap@, h_set, h_top);
                                lemma_heap_extends_trans(heap@, h_top, old(heap)@);
                            }
                            state.reduce();
                            return s;
                        },
                    }
                    proof {
                        lemma_heap_extends_trans(heap@, h_set, h_top);
                        lemma_heap_extends_trans(heap@, h_top, old(heap)@);
                        assert forall|k: int| 0 <= k < n implies valid_value(
                            #[trigger] elems@[k],
                            heap@,
                        ) by {
                            lemma_valid_value_extends(elems@[k], h_set, heap@);
                        }
                    }
                    i += 1;
                }
                state.reduce();
                Signal::Done
            },
            Statement::Return(expr) => {
                match expr {
                    Some(e) => {
                        match e.eval(state, heap, f, fuel) {
                            Ok(v) => Signal::Return(v),
                            Err(err) => Signal::Error(err),
                        }
                    },
                    None => Signal::Return(Value::Null),
                }
            },
            Statement::Continue => Signal::Continue,
            Statement::Break => Signal::Break,
        }
    }
}

impl Assign {
    /// Resolve one step of an assignment target chain against the current
    /// value of the target so far, and write `val` at the end of the chain.
    /// Writing into a container element mutates the shared cell in place.
    #[verifier::loop_isolation(false)]
    pub fn assign(
        &self,
        var: Value,
        val: Value,
        state: &mut Scope,
        heap: &mut Heap,
        f: &FuncMap,
        fuel: u64,
    ) -> (r: Signal)
        requires
            scope_valid(old(state)@, old(heap)@),
            heap_wf(old(heap)@),
            valid_value(var, old(heap)@),
            valid_value(val, old(heap)@),
        ensures
            heap_extends(final(heap)@, old(heap)@),
            heap_wf(final(heap)@),
            scope_valid(final(state)@, final(heap)@),
            final(state)@.len() == old(state)@.len(),
            r matches Signal::Return(v) ==> valid_value(v, final(heap)@),
            (*self) matches Assign::Access(_, _) ==> (!(var is Obj) ==> (r matches Signal::Error(e)
                && e.err_code == Type::RunTime(RunCode::TypeError)) && final(heap)@ == old(heap)@
                && final(state)@ == old(state)@),
            (*self) matches Assign::Access(fname, ch) ==> (var matches Value::Obj(o) ==> (
            crate::ops::obj_find(crate::ops::fields_of(old(heap)@, o), fname@) == -1 ==> (r
                matches Signal::Error(e) && e.err_code == Type::RunTime(RunCode::FieldNotFound))
                && final(heap)@ == old(heap)@ && final(state)@ == old(state)@)),
            (*self) matches Assign::Access(fname, ch) ==> (ch is None ==> (var matches Value::Obj(
                o,
            ) ==> (crate::ops::obj_find(crate::ops::fields_of(old(heap)@, o), fname@) >= 0 ==> (
            r is Done) && final(state)@ == old(state)@ && (forall|k: int|
                0 <= k < old(heap)@.len() && k != o ==> final(heap)@[k] == old(heap)@[k]) && (
            final(heap)@[o as int] matches HeapVal::Obj(fs2) && fs2@.len() == crate::ops::fields_of(
                old(heap)@,
                o,
            ).len() && fs2@[crate::ops::obj_find(crate::ops::fields_of(old(heap)@, o), fname@)].0@
                == fname@ && fs2@[crate::ops::obj_find(
                crate::ops::fields_of(old(heap)@, o),
                fname@,
            )].1 == val && (forall|k: int|
                0 <= k < fs2@.len() && k != crate::ops::obj_find(
                    crate::ops::fields_of(old(heap)@, o),
                    fname@,
                ) ==> fs2@[k] == crate::ops::fields_of(old(heap)@, o)[k]))))),
            (*self) matches Assign::Index(ie, _) ==> (ie matches Expr::Val(vie) ==> (vie matches
            ValExpr::Int(_) ==> (!(var is List || var is Dict) ==> (r matches Signal::Error(e)
                && e.err_code == Type::RunTime(RunCode::TypeError)) && final(heap)@ == old(heap)@
                && final(state)@ == old(state)@))),
            (*self) matches Assign::Index(ie, ch) ==> (ie matches Expr::Val(vie) ==> (vie matches
            ValExpr::Int(i) ==> (var matches Value::List(l) ==> (crate::ops::spec_resolve_index(
                crate::ops::elems_of(old(heap)@, l).len() as int,
                i as int,
            ) is None ==> (r matches Signal::Error(e) && e.err_code == Type::RunTime(
                RunCode::OutOfBounds,
            )) && final(heap)@ == old(heap)@ && final(state)@ == old(state)@)))),
            (*self) matches Assign::Index(ie, _) ==> (ie matches Expr::Val(vie) ==> (vie matches
            ValExpr::Int(i) ==> (var matches Value::Dict(m) ==> (crate::ops::dict_find(
                crate::ops::entries_of(old(heap)@, m),
                i as u64,
            ) == -1 ==> (r matches Signal::Error(e) && e.err_code == Type::RunTime(
                RunCode::OutOfBounds,
            )) && final(heap)@ == old(heap)@ && final(state)@ == old(state)@)))),
            (*self) matches Assign::Index(ie, ch) ==> (ch is None ==> (ie matches Expr::Val(vie)
                ==> (vie matches ValExpr::Int(i) ==> (var matches Value::List(l) ==> (
            crate::ops::spec_resolve_index(
                crate::ops::elems_of(old(heap)@, l).len() as int,
                i as int,
            ) matches Some(k) ==> (r is Done) && final(state)@ == old(state)@ && (forall|kk: int|
                0 <= kk < old(heap)@.len() && kk != l ==> final(heap)@[kk] == old(heap)@[kk]) && (
            final(heap)@[l as int] matches HeapVal::List(el2) && el2@ == crate::ops::elems_of(
                old(heap)@,
                l,
            ).update(k, val))))))),
        decreases fuel, self, 3int,
    {
        match self {
            Assign::Index(index, child_op) => {
                let iv = match index.eval(state, heap, f, fuel) {
                    Ok(v) => v,
                    Err(err) => {
                        return Signal::Error(err);
                    },
                };
                proof {
                    lemma_valid_value_extends(var, old(heap)@, heap@);
                    lemma_valid_value_extends(val, old(heap)@, heap@);
                }
                match var {
                    Value::List(l) => {
                        let i = match iv {
                            Value::Val(VType::I(i)) => i,
                            _ => {
                                return Signal::Error(Error::new(Type::RunTime(RunCode::TypeError)));
                            },
                        };
                        let len = match heap.get(l) {
                            HeapVal::List(el) => el.len(),
                            _ => {
                                proof {
                                    assert(false);
                                }
                                0
                            },
                        };
                        let k = match resolve_index(len, i) {
                            Ok(k) => k,
                            Err(err) => {
                                return Signal::Error(err);
                            },
                        };
                        match child_op {
                            Some(op) => {
                                let elem = match heap.get(l) {
                                    HeapVal::List(el) => el[k].dup(),
                                    _ => {
                                        proof {
                                            assert(false);
                                        }
                                        Value::Null
                                    },
                                };
                                proof {
                                    assert(cell_ok(heap@[l as int], heap@));
                                    assert(valid_value(elem, heap@));
                                }
                                let ghost h1 = heap@;
                                let r = op.assign(elem, val, state, heap, f, fuel);
                                proof {
                                    lemma_heap_extends_trans(heap@, h1, old(heap)@);
                                }
                                r
                            },
                            None => {
                                proof {
                                    assert(cell_ok(heap@[l as int], heap@));
                                }
                                let ghost h1 = heap@;
                                let c = heap.take(l);
                                match c {
                                    HeapVal::List(mut el) => {
                                        el.set(k, val);
                                        proof {
                                            assert forall|kk: int|
                                                0 <= kk < el@.len() implies valid_value(
                                                #[trigger] el@[kk],
                                                h1,
                                            ) by {
                                                if kk != k {
                                                    assert(el@[kk] == crate::ops::elems_of(
                                                        h1,
                                                        l,
                                                    )[kk]);
                                                }
                                            }
                                        }
                                        heap.set(l, HeapVal::List(el));
                                        proof {
                                            crate::builtins::lemma_concat_frame(
                                                h1,
                                                heap@,
                                                l as int,
                                            );
                                            lemma_heap_extends_trans(heap@, h1, old(heap)@);
                                            lemma_scope_valid_extends(state@, h1, heap@);
                                        }
                                        Signal::Done
                                    },
                                    _ => {
                                        proof {
                                            assert(false);
                                        }
                                        Signal::Error(
                                            Error::new(Type::RunTime(RunCode::TypeError)),
                                        )
                                    },
                                }
                            },
                        }
                    },
                    Value::Dict(m) => {
                        let hk = match hash_value(&iv, heap) {
                            Ok(hk) => hk,
                            Err(err) => {
                                return Signal::Error(err);
                            },
                        };
                        let found = match heap.get(m) {
                            HeapVal::Dict(es) => dict_scan(es, hk),
                            _ => {
                                proof {
                                    assert(false);
                                }
                                None
                            },
                        };
                        let j = match found {
                            Some(j) => j,
                            None => {
                                return Signal::Error(
                                    Error::new(Type::RunTime(RunCode::OutOfBounds)),
                                );
                            },
                        };
                        match child_op {
                            Some(op) => {
                                let elem = match heap.get(m) {
                                    HeapVal::Dict(es) => es[j].2.dup(),
                                    _ => {
                                        proof {
                                            assert(false);
                                        }
                                        Value::Null
                                    },
                                };
                                proof {
                                    assert(cell_ok(heap@[m as int], heap@));
                                    assert(valid_value(
                                        crate::ops::entries_of(heap@, m)[j as int].1,
                                        heap@,
                                    ) && valid_value(
                                        crate::ops::entries_of(heap@, m)[j as int].2,
                                        heap@,
                                    ));
                                }
                                let ghost h1 = heap@;
                                let r = op.assign(elem, val, state, heap, f, fuel);
                                proof {
                                    lemma_heap_extends_trans(heap@, h1, old(heap)@);
                                }
                                r
                            },
                            None => {
                                proof {
                                    assert(cell_ok(heap@[m as int], heap@));
                                }
                                let ghost h1 = heap@;
                                let c = heap.take(m);
                                match c {
                                    HeapVal::Dict(mut es) => {
                                        let key = es[j].1.dup();
                                        let hk2 = es[j].0;
                                        es.set(j, (hk2, key, val));
                                        proof {
                                            assert forall|kk: int|
                                                0 <= kk < es@.len() implies valid_value(
                                                (#[trigger] es@[kk]).1,
                                                h1,
                                            ) && valid_value(es@[kk].2, h1) by {
                                                if kk != j {
                                                    assert(es@[kk] == crate::ops::entries_of(
                                                        h1,
                                                        m,
                                                    )[kk]);
                                                } else {
                                                    assert(es@[kk].1 == crate::ops::entries_of(
                                                        h1,
                                                        m,
                                                    )[kk].1);
                                                }
                                            }
                                        }
                                        heap.set(m, HeapVal::Dict(es));
                                        proof {
                                            crate::builtins::lemma_concat_frame(
                                                h1,
                                                heap@,
                                                m as int,
                                            );
                                            lemma_heap_extends_trans(heap@, h1, old(heap)@);
                                            lemma_scope_valid_extends(state@, h1, heap@);
                                        }
                                        Signal::Done
                                    },
                                    _ => {
                                        proof {
                                            assert(false);
                                        }
                                        Signal::Error(
                                            Error::new(Type::RunTime(RunCode::TypeError)),
                                        )
                                    },
                                }
                            },
                        }
                    },
                    _ => Signal::Error(Error::new(Type::RunTime(RunCode::TypeError))),
                }
            },
            Assign::Access(field_name, child_op) => {
                match var {
                    Value::Obj(o) => {
                        let found = match heap.get(o) {
                            HeapVal::Obj(fs) => crate::ops::obj_scan(fs, field_name.as_str()),
                            _ => {
                                proof {
                                    assert(false);
                                }
                                None
                            },
                        };
                        let j = match found {
                            Some(j) => j,
                            None => {
                                return Signal::Error(
                                    Error::new(Type::RunTime(RunCode::FieldNotFound)),
                                );
                            },
                        };
                        match child_op {
                            Some(op) => {
                                let elem = match heap.get(o) {
                                    HeapVal::Obj(fs) => fs[j].1.dup(),
                                    _ => {
                                        proof {
                                            assert(false);
                                        }
                                        Value::Null
                                    },
                                };
                                proof {
                                    assert(cell_ok(heap@[o as int], heap@));
                                    assert(valid_value(
                                        crate::ops::fields_of(heap@, o)[j as int].1,
                                        heap@,
                                    ));
                                }
                                op.assign(elem, val, state, heap, f, fuel)
                            },
                            None => {
                                proof {
                                    assert(cell_ok(heap@[o as int], heap@));
                                }
                                let ghost h1 = heap@;
                                let c = heap.take(o);
                                match c {
                                    HeapVal::Obj(mut fs) => {
                                        let nm = fs[j].0.clone();
                                        fs.set(j, (nm, val));
                                        proof {
                                            assert forall|kk: int|
                                                0 <= kk < fs@.len() implies valid_value(
                                                (#[trigger] fs@[kk]).1,
                                                h1,
                                            ) by {
                                                if kk != j {
                                                    assert(fs@[kk] == crate::ops::fields_of(
                                                        h1,
                                                        o,
                                                    )[kk]);
                                                }
                                            }
                                        }
                                        heap.set(o, HeapVal::Obj(fs));
                                        proof {
                                            crate::builtins::lemma_concat_frame(h1, heap@, o as int);
                                            lemma_scope_valid_extends(state@, h1, heap@);
                                        }
                                        Signal::Done
                                    },
                                    _ => {
                                        proof {
                                            assert(false);
                                        }
                                        Signal::Error(
                                            Error::new(Type::RunTime(RunCode::TypeError)),
                                        )
                                    },
                                }
                            },
                        }
                    },
                    _ => Signal::Error(Error::new(Type::RunTime(RunCode::TypeError))),
                }
            },
        }
    }
}

impl FuncRoot {
    /// Call this function body: captured bindings (if any) go into the
    /// outermost frame, parameters into a fresh frame above them (so
    /// parameters shadow captures), then the statements run.  Falling off the
    /// end yields `Null`; a stray `continue`/`break` at this boundary is an
    /// error.
    #[verifier::loop_isolation(false)]
    pub fn call(
        &self,
        args: &Vec<Value>,
        f: &FuncMap,
        heap: &mut Heap,
        captured: Option<&Vec<(String, Value)>>,
        fuel: u64,
    ) -> (r: ExprRes)
        requires
            heap_wf(old(heap)@),
            vals_valid(args@, old(heap)@),
            captured matches Some(cap) ==> forall|k: int|
                0 <= k < cap@.len() ==> valid_value((#[trigger] cap@[k]).1, old(heap)@),
        ensures
            heap_extends(final(heap)@, old(heap)@),
            heap_wf(final(heap)@),
            r matches Ok(v) ==> valid_value(v, final(heap)@),
            args@.len() != self.arg_names@.len() ==> crate::error::is_run_err(
                r,
                RunCode::WrongNumberOfArguments,
            ) && final(heap)@ == old(heap)@,
            args@.len() == self.arg_names@.len() ==> (self.stat_list@.len() == 0 ==> r == Ok::<
                Value,
                Error,
            >(Value::Null) && final(heap)@ == old(heap)@),
            args@.len() == self.arg_names@.len() && self.stat_list@.len() > 0 ==> (
            self.stat_list@[0] is Break ==> crate::error::is_run_err(r, RunCode::CannotBreak)
                && final(heap)@ == old(heap)@),
            args@.len() == self.arg_names@.len() && self.stat_list@.len() > 0 ==> (
            self.stat_list@[0] is Continue ==> crate::error::is_run_err(r, RunCode::CannotContinue)
                && final(heap)@ == old(heap)@),
            args@.len() == self.arg_names@.len() && self.stat_list@.len() > 0 ==> (
            self.stat_list@[0] matches Statement::Return(oe) ==> (oe is None ==> r == Ok::<
                Value,
                Error,
            >(Value::Null) && final(heap)@ == old(heap)@)),
            args@.len() == self.arg_names@.len() && self.stat_list@.len() > 0 ==> (
            self.stat_list@[0] matches Statement::Return(oe) ==> (oe matches Some(e2) ==> (e2
                matches Expr::Val(ve) ==> (ve matches ValExpr::Int(i) ==> r == Ok::<Value, Error>(
                Value::Val(VType::I(i)),
            ) && final(heap)@ == old(heap)@)))),
        decreases fuel, self, 4int,
    {
        let mut state = Scope::new();
        if args.len() != self.arg_names.len() {
            return mserr(Type::RunTime(RunCode::WrongNumberOfArguments));
        }
        proof {
            assert(scope_valid(state@, heap@));
        }
        match captured {
            Some(cap) => {
                let n = cap.len();
                let mut i: usize = 0;
                while i < n
                    invariant
                        i <= n,
                        n == cap@.len(),
                        args@.len() == self.arg_names@.len(),
                        scope_valid(state@, heap@),
                        heap_wf(heap@),
                        heap@ == old(heap)@,
                        forall|k: int|
                            0 <= k < cap@.len() ==> valid_value((#[trigger] cap@[k]).1, heap@),
                    decreases n - i,
                {
                    let ghost pre = state@;
                    state.new_var(cap[i].0.as_str(), cap[i].1.dup());
                    proof {
                        lemma_declared_scope_valid(pre, state@, heap@, cap@[i as int].0@, cap@[i as int].1);
                    }
                    i += 1;
                }
                let ghost pre_ext = state@;
                state.extend();
                proof {
                    lemma_extended_scope_valid(pre_ext, state@, heap@);
                }
            },
            None => {},
        }
        let nargs = args.len();
        let mut i: usize = 0;
        while i < nargs
            invariant
                i <= nargs,
                nargs == args@.len(),
                scope_valid(state@, heap@),
                heap_wf(heap@),
                heap@ == old(heap)@,
                nargs == self.arg_names@.len(),
                vals_valid(args@, heap@),
            decreases nargs - i,
        {
            let ghost pre = state@;
            state.new_var(self.arg_names[i].as_str(), args[i].dup());
            proof {
                lemma_declared_scope_valid(pre, state@, heap@, self.arg_names@[i as int]@, args@[i as int]);
            }
            i += 1;
        }
        let nstats = self.stat_list.len();
        let mut j: usize = 0;
        while j < nstats
            invariant
                j <= nstats,
                nstats == self.stat_list@.len(),
                args@.len() == self.arg_names@.len(),
                scope_valid(state@, heap@),
                heap_wf(heap@),
                heap_extends(heap@, old(heap)@),
                j == 0 ==> heap@ == old(heap)@,
                nstats > 0 && self.stat_list@[0] is Break ==> j == 0,
                nstats > 0 && self.stat_list@[0] is Continue ==> j == 0,
                nstats > 0 ==> (self.stat_list@[0] matches Statement::Return(oe) ==> (oe
                    is None ==> j == 0)),
                nstats > 0 ==> (self.stat_list@[0] matches Statement::Return(oe) ==> (oe matches
                Some(e2) ==> (e2 matches Expr::Val(ve) ==> (ve matches ValExpr::Int(_) ==> j
                    == 0)))),
            decreases fuel, self, 4 * ((nstats - j) as int) + 3,
        {
            proof {
                vstd::std_specs::vec::axiom_vec_index_decreases(self.stat_list, j as int);
            }
            let ghost h_pre = heap@;
            match self.stat_list[j].run(&mut state, heap, f, fuel) {
                Signal::Done => {
                    proof {
                        lemma_heap_extends_trans(heap@, h_pre, old(heap)@);
                    }
                },
                Signal::Error(e) => {
                    proof {
                        lemma_heap_extends_trans(heap@, h_pre, old(heap)@);
                    }
                    return Err(e);
                },
                Signal::Return(v) => {
                    proof {
                        lemma_heap_extends_trans(heap@, h_pre, old(heap)@);
                    }
                    return Ok(v);
                },
                Signal::Continue => {
                    proof {
                        lemma_heap_extends_trans(heap@, h_pre, old(heap)@);
                    }
                    return mserr(Type::RunTime(RunCode::CannotContinue));
                },
                Signal::Break => {
                    proof {
                        lemma_heap_extends_trans(heap@, h_pre, old(heap)@);
                    }
                    return mserr(Type::RunTime(RunCode::CannotBreak));
                },
            }
            j += 1;
        }
        Ok(Value::Null)
    }
}

impl FuncMap {
    /// Call a named function of a named package.  An unknown package is
    /// `PackageNotFound`; a known package without the function is
    /// `FunctionNotFound`.
    pub fn call_fn(
        &self,
        package: &str,
        name: &str,
        args: &Vec<Value>,
        heap: &mut Heap,
        fuel: u64,
    ) -> (r: ExprRes)
        requires
            heap_wf(old(heap)@),
            vals_valid(args@, old(heap)@),
        ensures
            heap_extends(final(heap)@, old(heap)@),
            heap_wf(final(heap)@),
            r matches Ok(v) ==> valid_value(v, final(heap)@),
            fuel == 0 ==> crate::error::is_run_err(r, RunCode::RecursionLimit) && final(heap)@
                == old(heap)@,
            fuel > 0 && crate::function::pkg_find(self.packages@, package@) == -1
                ==> crate::error::is_run_err(r, RunCode::PackageNotFound) && final(heap)@ == old(
                heap)@,
            fuel > 0 && crate::function::pkg_find(self.packages@, package@) >= 0
                && crate::function::func_find(
                self.packages@[crate::function::pkg_find(self.packages@, package@)].1.funcs@,
                name@,
            ) == -1 ==> crate::error::is_run_err(r, RunCode::FunctionNotFound) && final(heap)@
                == old(heap)@,
            fuel > 0 && found_fn(self.packages@, package@, name@) ==> (args@.len()
                != crate::function::registered_func(
                self.packages@,
                package@,
                name@,
            ).arg_names@.len() ==> crate::error::is_run_err(r, RunCode::WrongNumberOfArguments)
                && final(heap)@ == old(heap)@),
            fuel > 0 && found_fn(self.packages@, package@, name@) ==> (args@.len()
                == crate::function::registered_func(self.packages@, package@, name@).arg_names@.len()
                && crate::function::registered_func(
                self.packages@,
                package@,
                name@,
            ).stat_list@.len() == 0 ==> r == Ok::<Value, Error>(Value::Null) && final(heap)@ == old(
                heap)@),
            fuel > 0 && found_fn(self.packages@, package@, name@) ==> (args@.len()
                == crate::function::registered_func(self.packages@, package@, name@).arg_names@.len()
                && crate::function::registered_func(
                self.packages@,
                package@,
                name@,
            ).stat_list@.len() > 0 ==> (crate::function::registered_func(
                self.packages@,
                package@,
                name@,
            ).stat_list@[0] is Break ==> crate::error::is_run_err(r, RunCode::CannotBreak) && final(
                heap)@ == old(heap)@)),
            fuel > 0 && found_fn(self.packages@, package@, name@) ==> (args@.len()
                == crate::function::registered_func(self.packages@, package@, name@).arg_names@.len()
                && crate::function::registered_func(
                self.packages@,
                package@,
                name@,
            ).stat_list@.len() > 0 ==> (crate::function::registered_func(
                self.packages@,
                package@,
                name@,
            ).stat_list@[0] is Continue ==> crate::error::is_run_err(r, RunCode::CannotContinue)
                && final(heap)@ == old(heap)@)),
        decreases fuel, *self, 0int,
    {
        if fuel == 0 {
            return mserr(Type::RunTime(RunCode::RecursionLimit));
        }
        match self.find_package(package) {
            Some(p) => {
                match p.find_func(name) {
                    Some(func) => func.call(args, self, heap, None, fuel - 1),
                    None => mserr(Type::RunTime(RunCode::FunctionNotFound)),
                }
            },
            None => mserr(Type::RunTime(RunCode::PackageNotFound)),
        }
    }
}

impl Script {
    /// Run a free-standing statement with a fresh environment.
    pub fn run(&self, funcs: &FuncMap, heap: &mut Heap) -> (r: Signal)
        requires
            heap_wf(old(heap)@),
        ensures
            heap_extends(final(heap)@, old(heap)@),
            heap_wf(final(heap)@),
            self.stat is Continue ==> r is Continue && final(heap)@ == old(heap)@,
            self.stat is Break ==> r is Break && final(heap)@ == old(heap)@,
            self.stat matches Statement::Return(oe) ==> (oe is None ==> r == Signal::Return(
                Value::Null,
            ) && final(heap)@ == old(heap)@),
            self.stat matches Statement::Return(oe) ==> (oe matches Some(e2) ==> (e2 matches
            Expr::Val(ve) ==> (ve matches ValExpr::Int(i) ==> r == Signal::Return(
                Value::Val(VType::I(i)),
            ) && final(heap)@ == old(heap)@))),
            self.stat matches Statement::Scope(stmts) ==> (stmts@.len() == 0 ==> r is Done
                && final(heap)@ == old(heap)@),
            self.stat matches Statement::VarDecl(nm, a) ==> (a is None ==> r is Done && final(
                heap)@ == old(heap)@),
    {
        let mut state = Scope::new();
        proof {
            assert(state@.last() =~= Seq::<(Seq<char>, Value)>::empty());
            assert forall|n2: Seq<char>| #[trigger] crate::scope::frame_idx(state@.last(), n2)
                == -1 by {}
        }
        self.stat.run(&mut state, heap, funcs, EVAL_FUEL)
    }

    /// Run against a caller-supplied, persistent environment, as a REPL
    /// does.  The environment keeps exactly the frames it had.
    pub fn repl_run(&self, state: &mut Scope, heap: &mut Heap, funcs: &FuncMap) -> (r: Signal)
        requires
            scope_valid(old(state)@, old(heap)@),
            heap_wf(old(heap)@),
        ensures
            heap_extends(final(heap)@, old(heap)@),
            heap_wf(final(heap)@),
            scope_valid(final(state)@, final(heap)@),
            final(state)@.len() == old(state)@.len(),
            self.stat is Continue ==> r is Continue && final(heap)@ == old(heap)@ && final(state)@
                == old(state)@,
            self.stat is Break ==> r is Break && final(heap)@ == old(heap)@ && final(state)@
                == old(state)@,
            self.stat matches Statement::Return(oe) ==> (oe is None ==> r == Signal::Return(
                Value::Null,
            ) && final(heap)@ == old(heap)@ && final(state)@ == old(state)@),
            self.stat matches Statement::Scope(stmts) ==> (stmts@.len() == 0 ==> r is Done
                && final(heap)@ == old(heap)@ && final(state)@ =~~= old(state)@),
            self.stat matches Statement::VarDecl(nm, a) ==> (a is None ==> (old(state)@.len() > 0
                && crate::scope::frame_idx(old(state)@.last(), nm@) == -1 ==> (r is Done) && final(
                heap)@ == old(heap)@ && final(state)@ =~~= old(state)@.update(
                old(state)@.len() - 1,
                old(state)@.last().push((nm@, Value::Null)),
            ))),
    {
        self.stat.run(state, heap, funcs, EVAL_FUEL)
    }
}

impl ScriptExpr {
    /// Evaluate a single-expression snippet with a fresh environment; an
    /// empty snippet yields `Null`.
    pub fn run(&self, funcs: &FuncMap, heap: &mut Heap) -> (r: ExprRes)
        requires
            heap_wf(old(heap)@),
        ensures
            heap_extends(final(heap)@, old(heap)@),
            heap_wf(final(heap)@),
            r matches Ok(v) ==> valid_value(v, final(heap)@),
            self.expr is None ==> r == Ok::<Value, Error>(Value::Null) && final(heap)@ == old(
                heap)@,
            self.expr matches Some(e) ==> (e matches Expr::Val(ve) ==> (ve matches ValExpr::Int(i)
                ==> r == Ok::<Value, Error>(Value::Val(VType::I(i))) && final(heap)@ == old(
                heap)@)),
            self.expr matches Some(e) ==> (e matches Expr::Val(ve) ==> (ve matches ValExpr::Bool(b)
                ==> r == Ok::<Value, Error>(Value::Val(VType::B(b))) && final(heap)@ == old(
                heap)@)),
            self.expr matches Some(e) ==> (e matches Expr::Val(ve) ==> (ve is Null ==> r == Ok::<
                Value,
                Error,
            >(Value::Null) && final(heap)@ == old(heap)@)),
            self.expr matches Some(e) ==> (e matches Expr::Val(ve) ==> (ve matches ValExpr::Text(t)
                ==> crate::ops::text_result(r, old(heap)@, final(heap)@, t@))),
            self.expr matches Some(e) ==> (e matches Expr::Val(ve) ==> (ve matches
            ValExpr::QualId(p, nm) ==> (r matches Ok(v) && v matches Value::Func(pp, nn) && pp@
                == p@ && nn@ == nm@) && final(heap)@ == old(heap)@)),
    {
        match &self.expr {
            Some(e) => {
                let mut state = Scope::new();
                proof {
                    assert(state@.last() =~= Seq::<(Seq<char>, Value)>::empty());
                    assert forall|n2: Seq<char>| #[trigger] crate::scope::scope_lookup(state@, n2)
                        is None by {
                        assert(crate::scope::frame_idx(state@.last(), n2) == -1);
                        crate::scope::lemma_scope_frame_props(state@, n2);
                        if crate::scope::scope_frame(state@, n2) >= 0 {
                            assert(crate::scope::frame_idx(
                                state@[crate::scope::scope_frame(state@, n2)],
                                n2,
                            ) >= 0);
                        }
                    }
                }
                e.eval(&mut state, heap, funcs, EVAL_FUEL)
            },
            None => Ok(Value::Null),
        }
    }
}

/// A fresh empty frame on top leaves every slot valid.
proof fn lemma_extended_scope_valid(
    vs1: Seq<Seq<(Seq<char>, Value)>>,
    vs2: Seq<Seq<(Seq<char>, Value)>>,
    h: Seq<HeapVal>,
)
    requires
        scope_valid(vs1, h),
        vs2.len() == vs1.len() + 1,
        vs2.last().len() == 0,
        forall|j: int| 0 <= j < vs1.len() ==> vs2[j] == vs1[j],
    ensures
        scope_valid(vs2, h),
{
    assert forall|j: int, i: int|
        0 <= j < vs2.len() && 0 <= i < vs2[j].len() implies valid_value(
        #[trigger] vs2[j][i].1,
        h,
    ) by {
        if j < vs1.len() {
            assert(vs1[j][i].1 == vs2[j][i].1);
        }
    }
}

/// Declaring a binding with a valid value leaves every slot valid.
proof fn lemma_declared_scope_valid(
    vs1: Seq<Seq<(Seq<char>, Value)>>,
    vs2: Seq<Seq<(Seq<char>, Value)>>,
    h: Seq<HeapVal>,
    n: Seq<char>,
    val: Value,
)
    requires
        scope_valid(vs1, h),
        valid_value(val, h),
        vs2 == vs1 || (vs1.len() > 0 && vs2 =~~= vs1.update(
            vs1.len() - 1,
            vs1.last().push((n, val)),
        )),
    ensures
        scope_valid(vs2, h),
        vs2.len() == vs1.len(),
{
    if vs2 != vs1 {
        assert forall|j: int, i: int|
            0 <= j < vs2.len() && 0 <= i < vs2[j].len() implies valid_value(
            #[trigger] vs2[j][i].1,
            h,
        ) by {
            if j == vs1.len() - 1 && i == vs1.last().len() {
                assert(vs2[j][i].1 == val);
            } else {
                assert(vs2[j][i].1 == vs1[j][i].1);
            }
        }
    }
}

/// Writing a binding leaves every slot valid, whichever of `set_var`'s three
/// outcomes happened.
proof fn lemma_set_var_valid(
    vs1: Seq<Seq<(Seq<char>, Value)>>,
    h1: Seq<HeapVal>,
    vs2: Seq<Seq<(Seq<char>, Value)>>,
    h2: Seq<HeapVal>,
    n: Seq<char>,
    val: Value,
)
    requires
        scope_valid(vs1, h1),
        heap_wf(h1),
        valid_value(val, h1),
        crate::scope::scope_lookup(vs1, n) is None ==> vs2 == vs1 && h2 == h1,
        crate::scope::scope_lookup(vs1, n) matches Some(Value::Ref(ix)) ==> (val matches
        Value::Val(p) ==> vs2 == vs1 && h2 == h1.update(ix as int, HeapVal::Prim(p))),
        crate::scope::scope_lookup(vs1, n) matches Some(slot) && !(slot is Ref && val is Val)
            ==> h2 == h1 && vs2 =~~= vs1.update(
            crate::scope::scope_frame(vs1, n),
            vs1[crate::scope::scope_frame(vs1, n)].update(
                crate::scope::frame_idx(vs1[crate::scope::scope_frame(vs1, n)], n),
                (n, val),
            ),
        ),
    ensures
        scope_valid(vs2, h2),
        heap_wf(h2),
        heap_extends(h2, h1),
        vs2.len() == vs1.len(),
{
    match crate::scope::scope_lookup(vs1, n) {
        None => {},
        Some(slot) => {
            crate::scope::lemma_scope_frame_props(vs1, n);
            let j = crate::scope::scope_frame(vs1, n);
            crate::scope::lemma_frame_idx_props(vs1[j], n);
            let fi = crate::scope::frame_idx(vs1[j], n);
            assert(valid_value(vs1[j][fi].1, h1));
            if slot is Ref && val is Val {
                let ix = slot->Ref_0;
                let p = val->Val_0;
                assert(vs1[j][fi].1 == slot);
                crate::heap::lemma_wf_update(h1, ix as int, HeapVal::Prim(p));
                assert forall|jj: int, ii: int|
                    0 <= jj < vs2.len() && 0 <= ii < vs2[jj].len() implies valid_value(
                    #[trigger] vs2[jj][ii].1,
                    h2,
                ) by {
                    lemma_valid_value_extends(vs1[jj][ii].1, h1, h2);
                }
            } else {
                assert forall|jj: int, ii: int|
                    0 <= jj < vs2.len() && 0 <= ii < vs2[jj].len() implies valid_value(
                    #[trigger] vs2[jj][ii].1,
                    h2,
                ) by {
                    if jj == j && ii == fi {
                        assert(vs2[jj][ii].1 == val);
                    } else {
                        assert(vs2[jj][ii].1 == vs1[jj][ii].1);
                    }
                }
            }
        },
    }
}

/// Validity of every scope slot survives a later heap state.
proof fn lemma_scope_valid_extends(
    vs: Seq<Seq<(Seq<char>, Value)>>,
    h1: Seq<HeapVal>,
    h2: Seq<HeapVal>,
)
    requires
        scope_valid(vs, h1),
        heap_extends(h2, h1),
    ensures
        scope_valid(vs, h2),
{
    assert forall|j: int, i: int|
        0 <= j < vs.len() && 0 <= i < vs[j].len() implies valid_value(
        #[trigger] vs[j][i].1,
        h2,
    ) by {
        lemma_valid_value_extends(vs[j][i].1, h1, h2);
    }
}

} // verus!
