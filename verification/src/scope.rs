//! The lexical environment: a stack of frames, each mapping names to values.
//!
//! Frames are pushed and popped in strict LIFO order around blocks, loop
//! bodies, match-arm bindings and function activations.  A name may be bound
//! at most once per frame; shadowing across frames resolves innermost-first.
//! Reading an ordinary binding copies the value; a binding becomes shared
//! only by explicit promotion (`get_ref`) or by closure capture
//! (`get_scope_refs`), after which writes through any holder of the cell are
//! visible through all.
//!
//! The model of a scope is a sequence of frames, each a sequence of
//! (name, slot) pairs; `scope_frame`/`frame_idx` locate the innermost
//! binding of a name, exactly as the executable search does.

use vstd::prelude::*;
use vstd::pervasive::VecAdditionalExecFns;
use crate::error::{is_run_err, mserr, CriticalCode, Error, RunCode, Type};
use crate::heap::{
    appended_only, lemma_appended_only_extends, lemma_valid_value_extends, valid_value, Heap,
    HeapVal,
};
use crate::value::{ExprRes, Signal, VType, Value};
use crate::text::str_eq;

verus! {

/// One frame: names bound in one lexical block, oldest first.
pub type Frame = Vec<(String, Value)>;

/// The mathematical form of a frame: names as character sequences.
pub open spec fn frame_model(f: Frame) -> Seq<(Seq<char>, Value)> {
    f@.map_values(|p: (String, Value)| (p.0@, p.1))
}

/// Index of the binding of `n` in one frame, or -1.  (Frames built through
/// `new_var` never bind a name twice, so this is simply "the" binding.)
pub open spec fn frame_idx(f: Seq<(Seq<char>, Value)>, n: Seq<char>) -> int
    decreases f.len(),
{
    if f.len() == 0 {
        -1
    } else if f.first().0 == n {
        0
    } else {
        let r = frame_idx(f.drop_first(), n);
        if r < 0 {
            -1
        } else {
            r + 1
        }
    }
}

/// Index of the innermost frame that binds `n`, or -1.
pub open spec fn scope_frame(vs: Seq<Seq<(Seq<char>, Value)>>, n: Seq<char>) -> int
    decreases vs.len(),
{
    if vs.len() == 0 {
        -1
    } else if frame_idx(vs.last(), n) >= 0 {
        vs.len() - 1
    } else {
        scope_frame(vs.drop_last(), n)
    }
}

/// The slot currently bound to `n`, innermost frame first.
pub open spec fn scope_lookup(vs: Seq<Seq<(Seq<char>, Value)>>, n: Seq<char>) -> Option<Value> {
    let j = scope_frame(vs, n);
    if j >= 0 {
        Some(vs[j][frame_idx(vs[j], n)].1)
    } else {
        None
    }
}

/// What a read returns for a slot: a shared cell is snapshotted to a plain
/// primitive (read-by-value even for promoted bindings); everything else is
/// returned as it is stored.
pub open spec fn read_slot(v: Value, h: Seq<HeapVal>) -> Value {
    match v {
        Value::Ref(i) => if i < h.len() {
            match h[i as int] {
                HeapVal::Prim(p) => Value::Val(p),
                _ => v,
            }
        } else {
            v
        },
        _ => v,
    }
}

/// Every slot of the scope is a valid handle into `h`.
pub open spec fn scope_valid(vs: Seq<Seq<(Seq<char>, Value)>>, h: Seq<HeapVal>) -> bool {
    forall|j: int, i: int|
        0 <= j < vs.len() && 0 <= i < vs[j].len() ==> valid_value(#[trigger] vs[j][i].1, h)
}

/// What `frame_idx` finds really is the first binding of the name.
pub proof fn lemma_frame_idx_props(f: Seq<(Seq<char>, Value)>, n: Seq<char>)
    ensures
        frame_idx(f, n) == -1 || 0 <= frame_idx(f, n) < f.len(),
        frame_idx(f, n) >= 0 ==> f[frame_idx(f, n)].0 == n,
        frame_idx(f, n) == -1 ==> forall|k: int| 0 <= k < f.len() ==> (#[trigger] f[k]).0 != n,
        frame_idx(f, n) >= 0 ==> forall|k: int| 0 <= k < frame_idx(f, n) ==> (#[trigger] f[k]).0
            != n,
    decreases f.len(),
{
    if f.len() > 0 && f.first().0 != n {
        lemma_frame_idx_props(f.drop_first(), n);
        assert forall|k: int| 1 <= k < f.len() implies f.drop_first()[k - 1] == #[trigger] f[k] by {}
    }
}

/// A binding with no earlier binding of the same name is what `frame_idx`
/// finds.
pub proof fn lemma_frame_idx_at(f: Seq<(Seq<char>, Value)>, n: Seq<char>, i: int)
    requires
        0 <= i < f.len(),
        f[i].0 == n,
        forall|k: int| 0 <= k < i ==> (#[trigger] f[k]).0 != n,
    ensures
        frame_idx(f, n) == i,
    decreases f.len(),
{
    if i > 0 {
        assert(f.first().0 != n);
        assert forall|k: int| 1 <= k < f.len() implies f.drop_first()[k - 1] == #[trigger] f[k] by {}
        lemma_frame_idx_at(f.drop_first(), n, i - 1);
    }
}

/// What `scope_frame` finds really is the innermost frame binding the name.
pub proof fn lemma_scope_frame_props(vs: Seq<Seq<(Seq<char>, Value)>>, n: Seq<char>)
    ensures
        scope_frame(vs, n) == -1 || 0 <= scope_frame(vs, n) < vs.len(),
        scope_frame(vs, n) >= 0 ==> frame_idx(vs[scope_frame(vs, n)], n) >= 0,
        scope_frame(vs, n) == -1 ==> forall|j: int|
            0 <= j < vs.len() ==> frame_idx(#[trigger] vs[j], n) == -1,
        scope_frame(vs, n) >= 0 ==> forall|j: int|
            scope_frame(vs, n) < j < vs.len() ==> frame_idx(#[trigger] vs[j], n) == -1,
    decreases vs.len(),
{
    if vs.len() > 0 && frame_idx(vs.last(), n) < 0 {
        lemma_scope_frame_props(vs.drop_last(), n);
        assert forall|j: int| 0 <= j < vs.len() - 1 implies vs.drop_last()[j] == #[trigger] vs[j] by {}
        lemma_frame_idx_props(vs.last(), n);
    }
}

/// A frame that binds the name, with no inner frame binding it, is what
/// `scope_frame` finds.
pub proof fn lemma_scope_frame_at(vs: Seq<Seq<(Seq<char>, Value)>>, n: Seq<char>, j: int)
    requires
        0 <= j < vs.len(),
        frame_idx(vs[j], n) >= 0,
        forall|jj: int| j < jj < vs.len() ==> frame_idx(#[trigger] vs[jj], n) == -1,
    ensures
        scope_frame(vs, n) == j,
    decreases vs.len(),
{
    if j < vs.len() - 1 {
        assert(frame_idx(vs.last(), n) == -1);
        assert forall|jj: int| 0 <= jj < vs.len() - 1 implies vs.drop_last()[jj] == #[trigger] vs[jj] by {}
        lemma_scope_frame_at(vs.drop_last(), n, j);
    }
}

/// One slot after whole-scope promotion: a plain primitive became a fresh
/// shared cell holding the same primitive; every other slot is untouched.
pub open spec fn promoted_slot(oldv: Value, newv: Value, h: Seq<HeapVal>, base: int) -> bool {
    match oldv {
        Value::Val(p) => exists|ix: usize|
            #![auto]
            base <= ix < h.len() && newv == Value::Ref(ix) && h[ix as int] == HeapVal::Prim(p),
        _ => newv == oldv,
    }
}

/// Promotion evidence survives appending more cells to the heap.
pub proof fn lemma_promoted_slot_grow(
    oldv: Value,
    newv: Value,
    h1: Seq<HeapVal>,
    h2: Seq<HeapVal>,
    base: int,
)
    requires
        promoted_slot(oldv, newv, h1, base),
        appended_only(h2, h1),
    ensures
        promoted_slot(oldv, newv, h2, base),
{
    match oldv {
        Value::Val(p) => {
            let ix = choose|ix: usize|
                #![auto]
                base <= ix < h1.len() && newv == Value::Ref(ix) && h1[ix as int]
                    == HeapVal::Prim(p);
            assert(h2[ix as int] == HeapVal::Prim(p));
        },
        _ => {},
    }
}

/// Some pair of the capture list binds the name `n`.
pub open spec fn name_in(m: Seq<(Seq<char>, Value)>, n: Seq<char>) -> bool {
    exists|k: int| 0 <= k < m.len() && (#[trigger] m[k]).0 == n
}

/// A name stays bound when the capture list grows at the end.
pub proof fn lemma_name_in_grow(m1: Seq<(Seq<char>, Value)>, m2: Seq<(Seq<char>, Value)>, n: Seq<char>)
    requires
        name_in(m1, n),
        m1.len() <= m2.len(),
        forall|k: int| 0 <= k < m1.len() ==> m2[k] == m1[k],
    ensures
        name_in(m2, n),
{
    let k0 = choose|k: int| 0 <= k < m1.len() && (#[trigger] m1[k]).0 == n;
    assert(m2[k0].0 == n);
}

/// Shadowing: after declaring `n = v1` in the innermost frame, pushing a new
/// frame and declaring `n = v2` there, the visible binding of `n` is `v2`;
/// popping that frame makes it `v1` again.  The three scope values below are
/// exactly what `new_var`, `extend` and `new_var` promise to produce.
pub proof fn lemma_shadowing(
    vs: Seq<Seq<(Seq<char>, Value)>>,
    n: Seq<char>,
    v1: Value,
    v2: Value,
)
    requires
        vs.len() > 0,
        frame_idx(vs.last(), n) == -1,
    ensures
        ({
            let vs1 = vs.update(vs.len() - 1, vs.last().push((n, v1)));
            let vs2 = vs1.push(Seq::empty());
            let vs3 = vs2.update(vs2.len() - 1, vs2.last().push((n, v2)));
            scope_lookup(vs3, n) == Some(v2) && vs3.drop_last() == vs1 && scope_lookup(vs1, n)
                == Some(v1)
        }),
{
    let vs1 = vs.update(vs.len() - 1, vs.last().push((n, v1)));
    let vs2 = vs1.push(Seq::empty());
    let vs3 = vs2.update(vs2.len() - 1, vs2.last().push((n, v2)));
    let f1 = vs.last().push((n, v1));
    lemma_frame_idx_props(vs.last(), n);
    lemma_frame_idx_at(f1, n, vs.last().len() as int);
    assert(vs1.last() == f1);
    lemma_scope_frame_at(vs1, n, vs.len() - 1);
    assert(scope_lookup(vs1, n) == Some(v1));
    let f3 = vs2.last().push((n, v2));
    assert(f3 =~= seq![(n, v2)]);
    assert(f3.first().0 == n);
    assert(frame_idx(f3, n) == 0);
    assert(vs3.last() == f3);
    lemma_scope_frame_at(vs3, n, vs3.len() - 1);
    assert(scope_lookup(vs3, n) == Some(v2));
    assert(vs3.drop_last() =~= vs1);
}

/// Shared-cell aliasing: when two bindings hold the same promoted cell,
/// writing a plain primitive through one (what `set_var` does to the heap)
/// is observed by a read through the other (what `get_var` returns).  The
/// pairs of a capture list share cells with the scope in just this way, by
/// `get_scope_refs`'s contract, so the same conclusion covers closures.
pub proof fn lemma_shared_cell_aliasing(
    vs: Seq<Seq<(Seq<char>, Value)>>,
    h: Seq<HeapVal>,
    n1: Seq<char>,
    n2: Seq<char>,
    ix: usize,
    q: VType,
)
    requires
        scope_lookup(vs, n1) == Some(Value::Ref(ix)),
        scope_lookup(vs, n2) == Some(Value::Ref(ix)),
        ix < h.len(),
    ensures
        read_slot(scope_lookup(vs, n2)->Some_0, h.update(ix as int, HeapVal::Prim(q)))
            == Value::Val(q),
{
}

/// A well-formed scope stays well formed in a later heap state, available
/// wherever both facts are known.
pub broadcast proof fn axiom_scope_valid_extends(
    vs: Seq<Seq<(Seq<char>, Value)>>,
    h1: Seq<HeapVal>,
    h2: Seq<HeapVal>,
)
    requires
        #[trigger] scope_valid(vs, h1),
        #[trigger] crate::heap::heap_extends(h2, h1),
    ensures
        scope_valid(vs, h2),
{
    assert forall|j: int, i: int|
        0 <= j < vs.len() && 0 <= i < vs[j].len() implies valid_value(
        #[trigger] vs[j][i].1,
        h2,
    ) by {
        crate::heap::lemma_valid_value_extends(vs[j][i].1, h1, h2);
    }
}

/// What a read returns is itself a valid handle.
pub proof fn lemma_read_slot_valid(slot: Value, h: Seq<HeapVal>)
    requires
        valid_value(slot, h),
    ensures
        valid_value(read_slot(slot, h), h),
{
}

/// The stack of lexical frames.
pub struct Scope {
    pub vars: Vec<Frame>,
}

impl View for Scope {
    type V = Seq<Seq<(Seq<char>, Value)>>;

    open spec fn view(&self) -> Seq<Seq<(Seq<char>, Value)>> {
        self.vars@.map_values(|f: Frame| frame_model(f))
    }
}

impl Scope {
    /// A fresh environment: one empty frame.
    pub fn new() -> (r: Self)
        ensures
            r@.len() == 1,
            r@[0] =~= Seq::<(Seq<char>, Value)>::empty(),
    {
        let mut vars: Vec<Frame> = Vec::new();
        vars.push(Vec::new());
        Scope { vars }
    }

    /// Push an empty frame.
    pub fn extend(&mut self)
        ensures
            final(self)@.len() == old(self)@.len() + 1,
            final(self)@.last() =~= Seq::<(Seq<char>, Value)>::empty(),
            forall|j: int| 0 <= j < old(self)@.len() ==> final(self)@[j] == old(self)@[j],
    {
        self.vars.push(Vec::new());
    }

    /// Pop the innermost frame; on an (impossible in well-nested use) empty
    /// stack, do nothing.
    pub fn reduce(&mut self)
        ensures
            old(self)@.len() > 0 ==> final(self)@ == old(self)@.drop_last(),
            old(self)@.len() == 0 ==> final(self)@ == old(self)@,
    {
        let popped = self.vars.pop();
        proof {
            if old(self)@.len() > 0 {
                assert(final(self)@ =~= old(self)@.drop_last());
            } else {
                assert(final(self)@ =~= old(self)@);
            }
        }
    }

    /// Declare a new binding in the innermost frame.  Fails when that exact
    /// frame already binds the name (outer frames do not matter).
    pub fn new_var(&mut self, name: &str, val: Value) -> (r: Signal)
        ensures
            old(self)@.len() == 0 ==> final(self)@ == old(self)@ && (r matches Signal::Error(e)
                && e.err_code == Type::Critical(CriticalCode::ScopeError)),
            old(self)@.len() > 0 && frame_idx(old(self)@.last(), name@) >= 0 ==> final(self)@
                == old(self)@ && (r matches Signal::Error(e) && e.err_code == Type::RunTime(
                RunCode::VariableAlreadyDeclared,
            )),
            old(self)@.len() > 0 && frame_idx(old(self)@.last(), name@) == -1 ==> (
            r is Done) && final(self)@ =~~= old(self)@.update(
                old(self)@.len() - 1,
                old(self)@.last().push((name@, val)),
            ),
    {
        let nframes = self.vars.len();
        if nframes == 0 {
            return Signal::Error(Error::new(Type::Critical(CriticalCode::ScopeError)));
        }
        let j = nframes - 1;
        let ghost fm = self@[j as int];
        proof {
            assert(fm == frame_model(self.vars@[j as int]));
        }
        let flen = self.vars[j].len();
        let mut i: usize = 0;
        while i < flen
            invariant
                0 <= i <= flen,
                self.vars@ == old(self).vars@,
                nframes == self.vars@.len(),
                0 < nframes,
                j == nframes - 1,
                flen == fm.len(),
                fm == frame_model(self.vars@[j as int]),
                forall|k: int| 0 <= k < i ==> (#[trigger] fm[k]).0 != name@,
            decreases flen - i,
        {
            if str_eq(name, self.vars[j][i].0.as_str()) {
                proof {
                    assert(fm[i as int].0 == name@);
                    lemma_frame_idx_at(fm, name@, i as int);
                    assert(fm == old(self)@.last());
                }
                return Signal::Error(Error::new(Type::RunTime(RunCode::VariableAlreadyDeclared)));
            }
            i += 1;
        }
        proof {
            lemma_frame_idx_props(fm, name@);
            if frame_idx(fm, name@) >= 0 {
                assert(fm[frame_idx(fm, name@)].0 == name@);
            }
        }
        let mut frame: Frame = Vec::new();
        self.vars.set_and_swap(j, &mut frame);
        frame.push((name.to_owned(), val));
        self.vars.set_and_swap(j, &mut frame);
        proof {
            assert(final(self)@ =~~= old(self)@.update(
                old(self)@.len() - 1,
                old(self)@.last().push((name@, val)),
            ));
        }
        Signal::Done
    }

    /// Locate the innermost binding of `name`: its frame and its position in
    /// that frame.
    fn find(&self, name: &str) -> (r: Option<(usize, usize)>)
        ensures
            match r {
                Some((j, i)) => scope_frame(self@, name@) == j && j < self@.len() && frame_idx(
                    self@[j as int],
                    name@,
                ) == i && i < self@[j as int].len() && self@[j as int][i as int].0 == name@
                    && scope_lookup(self@, name@) == Some(self@[j as int][i as int].1),
                None => scope_frame(self@, name@) == -1 && scope_lookup(self@, name@) is None,
            },
    {
        let nframes = self.vars.len();
        let mut j = nframes;
        while j > 0
            invariant
                j <= nframes,
                nframes == self.vars@.len(),
                forall|jj: int| j <= jj < nframes ==> frame_idx(self@[jj], name@) == -1,
            decreases j,
        {
            j -= 1;
            let ghost fm = self@[j as int];
            let flen = self.vars[j].len();
            let mut i: usize = 0;
            while i < flen
                invariant
                    0 <= i <= flen,
                    j < nframes,
                    nframes == self.vars@.len(),
                    fm == self@[j as int],
                    fm == frame_model(self.vars@[j as int]),
                    flen == fm.len(),
                    forall|jj: int| j < jj < nframes ==> frame_idx(self@[jj], name@) == -1,
                    forall|k: int| 0 <= k < i ==> (#[trigger] fm[k]).0 != name@,
                decreases flen - i,
            {
                if str_eq(name, self.vars[j][i].0.as_str()) {
                    proof {
                        assert(fm[i as int].0 == name@);
                        lemma_frame_idx_at(fm, name@, i as int);
                        lemma_scope_frame_at(self@, name@, j as int);
                    }
                    return Some((j, i));
                }
                i += 1;
            }
            proof {
                lemma_frame_idx_props(fm, name@);
                if frame_idx(fm, name@) >= 0 {
                    assert(fm[frame_idx(fm, name@)].0 == name@);
                }
            }
        }
        proof {
            lemma_scope_frame_props(self@, name@);
            if scope_frame(self@, name@) >= 0 {
                assert(frame_idx(self@[scope_frame(self@, name@)], name@) >= 0);
            }
        }
        None
    }

    /// Read a binding, innermost frame first.  A promoted binding is
    /// snapshotted: the caller gets a plain primitive copy, never the cell.
    pub fn get_var(&self, name: &str, heap: &Heap) -> (r: ExprRes)
        requires
            scope_valid(self@, heap@),
        ensures
            scope_lookup(self@, name@) matches Some(slot) ==> r == Ok::<Value, Error>(
                read_slot(slot, heap@),
            ),
            scope_lookup(self@, name@) is None ==> is_run_err(r, RunCode::VariableNotDeclared),
    {
        match self.find(name) {
            Some((j, i)) => {
                proof {
                    assert(valid_value(self@[j as int][i as int].1, heap@));
                }
                match &self.vars[j][i].1 {
                    Value::Ref(ix) => {
                        match heap.get(*ix) {
                            HeapVal::Prim(p) => Ok(Value::Val(*p)),
                            _ => {
                                proof {
                                    assert(false);
                                }
                                mserr(Type::Critical(CriticalCode::ScopeError))
                            },
                        }
                    },
                    slot => Ok(slot.dup()),
                }
            },
            None => mserr(Type::RunTime(RunCode::VariableNotDeclared)),
        }
    }

    /// Write a binding, innermost frame first.  Writing a plain primitive
    /// into a promoted binding overwrites the shared cell in place, so every
    /// holder of the cell observes the new value; any other combination
    /// replaces the slot outright.
    pub fn set_var(&mut self, name: &str, val: Value, heap: &mut Heap) -> (r: Signal)
        requires
            scope_valid(old(self)@, old(heap)@),
        ensures
            scope_lookup(old(self)@, name@) is None ==> final(self)@ == old(self)@ && final(heap)@
                == old(heap)@ && (r matches Signal::Error(e) && e.err_code == Type::RunTime(
                RunCode::VariableNotDeclared,
            )),
            scope_lookup(old(self)@, name@) matches Some(Value::Ref(ix)) ==> val matches
            Value::Val(p) ==> final(self)@ == old(self)@ && final(heap)@ == old(heap)@.update(
                ix as int,
                HeapVal::Prim(p),
            ) && r is Done,
            scope_lookup(old(self)@, name@) matches Some(slot) && !(slot is Ref && val is Val)
                ==> final(heap)@ == old(heap)@ && r is Done && final(self)@ =~~= old(self)@.update(
                scope_frame(old(self)@, name@),
                old(self)@[scope_frame(old(self)@, name@)].update(
                    frame_idx(old(self)@[scope_frame(old(self)@, name@)], name@),
                    (name@, val),
                ),
            ),
    {
        match self.find(name) {
            Some((j, i)) => {
                proof {
                    assert(valid_value(self@[j as int][i as int].1, heap@));
                    assert(self@[j as int] == frame_model(self.vars@[j as int]));
                    assert(self@[j as int][i as int].1 == self.vars@[j as int]@[i as int].1);
                }
                let slot_is_ref = match &self.vars[j][i].1 {
                    Value::Ref(_) => true,
                    _ => false,
                };
                let val_is_val = match &val {
                    Value::Val(_) => true,
                    _ => false,
                };
                if slot_is_ref && val_is_val {
                    let ix = match &self.vars[j][i].1 {
                        Value::Ref(ix) => *ix,
                        _ => {
                            proof {
                                assert(false);
                            }
                            0
                        },
                    };
                    let p = match val {
                        Value::Val(p) => p,
                        _ => {
                            proof {
                                assert(false);
                            }
                            crate::value::VType::B(false)
                        },
                    };
                    heap.set(ix, HeapVal::Prim(p));
                    proof {
                        assert(scope_lookup(old(self)@, name@) == Some(Value::Ref(ix)));
                    }
                    Signal::Done
                } else {
                    let mut frame: Frame = Vec::new();
                    self.vars.set_and_swap(j, &mut frame);
                    let nm = frame[i].0.clone();
                    frame.set(i, (nm, val));
                    self.vars.set_and_swap(j, &mut frame);
                    proof {
                        assert(final(self)@ =~~= old(self)@.update(
                            scope_frame(old(self)@, name@),
                            old(self)@[scope_frame(old(self)@, name@)].update(
                                frame_idx(old(self)@[scope_frame(old(self)@, name@)], name@),
                                (name@, val),
                            ),
                        ));
                    }
                    Signal::Done
                }
            },
            None => Signal::Error(Error::new(Type::RunTime(RunCode::VariableNotDeclared))),
        }
    }

    /// Read a binding, promoting it: a plain primitive slot is replaced in
    /// place by a new shared cell holding the same primitive, and the shared
    /// handle is returned.  This is the only way a binding becomes shared.
    pub fn get_ref(&mut self, name: &str, heap: &mut Heap) -> (r: ExprRes)
        requires
            scope_valid(old(self)@, old(heap)@),
        ensures
            scope_lookup(old(self)@, name@) is None ==> final(self)@ == old(self)@ && final(heap)@
                == old(heap)@ && is_run_err(r, RunCode::VariableNotDeclared),
            scope_lookup(old(self)@, name@) matches Some(Value::Val(p)) ==> final(heap)@ == old(heap)@.push(HeapVal::Prim(p)) && r == Ok::<Value, Error>(
                Value::Ref(old(heap)@.len() as usize),
            ) && final(self)@ =~~= old(self)@.update(
                scope_frame(old(self)@, name@),
                old(self)@[scope_frame(old(self)@, name@)].update(
                    frame_idx(old(self)@[scope_frame(old(self)@, name@)], name@),
                    (name@, Value::Ref(old(heap)@.len() as usize)),
                ),
            ),
            scope_lookup(old(self)@, name@) is Some && !(scope_lookup(old(self)@, name@)->Some_0
                is Val) ==> final(self)@ == old(self)@ && final(heap)@ == old(heap)@ && r == Ok::<
                Value,
                Error,
            >(scope_lookup(old(self)@, name@)->Some_0),
    {
        match self.find(name) {
            Some((j, i)) => {
                proof {
                    assert(valid_value(self@[j as int][i as int].1, heap@));
                }
                let is_plain = match &self.vars[j][i].1 {
                    Value::Val(_) => true,
                    _ => false,
                };
                if is_plain {
                    let p = match &self.vars[j][i].1 {
                        Value::Val(p) => *p,
                        _ => {
                            proof {
                                assert(false);
                            }
                            crate::value::VType::B(false)
                        },
                    };
                    let ix = heap.add_cell(HeapVal::Prim(p));
                    let mut frame: Frame = Vec::new();
                    self.vars.set_and_swap(j, &mut frame);
                    let nm = frame[i].0.clone();
                    frame.set(i, (nm, Value::Ref(ix)));
                    self.vars.set_and_swap(j, &mut frame);
                    proof {
                        assert(final(self)@ =~~= old(self)@.update(
                            scope_frame(old(self)@, name@),
                            old(self)@[scope_frame(old(self)@, name@)].update(
                                frame_idx(old(self)@[scope_frame(old(self)@, name@)], name@),
                                (name@, Value::Ref(old(heap)@.len() as usize)),
                            ),
                        ));
                    }
                    Ok(Value::Ref(ix))
                } else {
                    Ok(self.vars[j][i].1.dup())
                }
            },
            None => mserr(Type::RunTime(RunCode::VariableNotDeclared)),
        }
    }

    /// The flattened snapshot of every visible binding, for closure capture:
    /// one pair per visible name, bound to its innermost slot.
    fn collect_bindings(&self) -> (r: Vec<(String, Value)>)
        ensures
            forall|k1: int, k2: int|
                0 <= k1 < k2 < frame_model(r).len() ==> (#[trigger] frame_model(r)[k1]).0 != (
                #[trigger] frame_model(r)[k2]).0,
            forall|k: int|
                0 <= k < frame_model(r).len() ==> scope_lookup(
                    self@,
                    (#[trigger] frame_model(r)[k]).0,
                ) == Some(frame_model(r)[k].1),
            forall|j: int, i: int|
                0 <= j < self@.len() && 0 <= i < self@[j].len() ==> name_in(
                    frame_model(r),
                    (#[trigger] self@[j][i]).0,
                ),
    {
        let nframes = self.vars.len();
        let mut out: Vec<(String, Value)> = Vec::new();
        let mut j = nframes;
        while j > 0
            invariant
                j <= nframes,
                nframes == self.vars@.len(),
                forall|k1: int, k2: int|
                    0 <= k1 < k2 < frame_model(out).len() ==> (#[trigger] frame_model(out)[k1]).0
                        != (#[trigger] frame_model(out)[k2]).0,
                forall|k: int|
                    0 <= k < frame_model(out).len() ==> scope_lookup(
                        self@,
                        (#[trigger] frame_model(out)[k]).0,
                    ) == Some(frame_model(out)[k].1),
                forall|jj: int, ii: int|
                    j <= jj < nframes && 0 <= ii < self@[jj].len() ==> name_in(
                        frame_model(out),
                        (#[trigger] self@[jj][ii]).0,
                    ),
            decreases j,
        {
            j -= 1;
            let flen = self.vars[j].len();
            let mut i: usize = 0;
            while i < flen
                invariant
                    i <= flen,
                    j < nframes,
                    nframes == self.vars@.len(),
                    flen == self@[j as int].len(),
                    forall|k1: int, k2: int|
                        0 <= k1 < k2 < frame_model(out).len() ==> (#[trigger] frame_model(
                            out,
                        )[k1]).0 != (#[trigger] frame_model(out)[k2]).0,
                    forall|k: int|
                        0 <= k < frame_model(out).len() ==> scope_lookup(
                            self@,
                            (#[trigger] frame_model(out)[k]).0,
                        ) == Some(frame_model(out)[k].1),
                    forall|jj: int, ii: int|
                        j < jj < nframes && 0 <= ii < self@[jj].len() ==> name_in(
                            frame_model(out),
                            (#[trigger] self@[jj][ii]).0,
                        ),
                    forall|ii: int|
                        0 <= ii < i ==> name_in(
                            frame_model(out),
                            (#[trigger] self@[j as int][ii]).0,
                        ),
                decreases flen - i,
            {
                let ghost nm_model = self@[j as int][i as int].0;
                proof {
                    assert(self@[j as int] == frame_model(self.vars@[j as int]));
                }
                let olen = out.len();
                let mut k: usize = 0;
                let mut present = false;
                while k < olen
                    invariant
                        k <= olen,
                        olen == out@.len(),
                        nm_model == self.vars@[j as int]@[i as int].0@,
                        i < self.vars@[j as int]@.len(),
                        j < self.vars@.len(),
                        !present ==> forall|kk: int|
                            0 <= kk < k ==> (#[trigger] frame_model(out)[kk]).0 != nm_model,
                        present ==> name_in(frame_model(out), nm_model),
                    decreases olen - k,
                {
                    if str_eq(self.vars[j][i].0.as_str(), out[k].0.as_str()) {
                        present = true;
                        proof {
                            assert(frame_model(out)[k as int].0 == nm_model);
                        }
                        k = olen;
                    } else {
                        k += 1;
                    }
                }
                if !present {
                    match self.find(self.vars[j][i].0.as_str()) {
                        Some((fj, fi)) => {
                            proof {
                                assert(self@[fj as int] == frame_model(self.vars@[fj as int]));
                            }
                            let nm = self.vars[j][i].0.clone();
                            let slot = self.vars[fj][fi].1.dup();
                            let ghost prevm = frame_model(out);
                            out.push((nm, slot));
                            proof {
                                assert forall|kk: int| 0 <= kk < prevm.len() implies #[trigger] frame_model(out)[kk] == prevm[kk] by {
                                    assert(out@[kk] == out@.drop_last()[kk]);
                                }
                                assert(frame_model(out).len() == prevm.len() + 1);
                                assert(frame_model(out)[prevm.len() as int].0 == nm_model);
                                assert(frame_model(out)[prevm.len() as int].1 == self@[fj as int][fi as int].1);
                                assert(scope_lookup(self@, nm_model) == Some(
                                    frame_model(out)[prevm.len() as int].1,
                                ));
                                assert(name_in(frame_model(out), nm_model));
                                assert forall|n2: Seq<char>| name_in(prevm, n2) implies name_in(
                                    frame_model(out),
                                    n2,
                                ) by {
                                    lemma_name_in_grow(prevm, frame_model(out), n2);
                                }
                            }
                        },
                        None => {
                            proof {
                                lemma_scope_frame_props(self@, nm_model);
                                lemma_frame_idx_props(self@[j as int], nm_model);
                                assert(false);
                            }
                        },
                    }
                }
                i += 1;
            }
        }
        out
    }

    /// Flatten every active frame into one capture list, promoting every
    /// plain primitive slot to a shared cell as a side effect, so the closure
    /// and the original scope share state from here on.  Inner bindings win
    /// over outer ones with the same name.
    pub fn get_scope_refs(&mut self, heap: &mut Heap) -> (r: Vec<(String, Value)>)
        requires
            scope_valid(old(self)@, old(heap)@),
        ensures
            appended_only(final(heap)@, old(heap)@),
            forall|k: int|
                old(heap)@.len() <= k < final(heap)@.len() ==> (#[trigger] final(heap)@[k])
                    is Prim,
            final(self)@.len() == old(self)@.len(),
            forall|j: int|
                0 <= j < old(self)@.len() ==> (#[trigger] final(self)@[j]).len() == old(self)@[j].len(),
            forall|j: int, i: int|
                0 <= j < old(self)@.len() && 0 <= i < old(self)@[j].len() ==> (#[trigger] final(self)@[j][i]).0 == old(self)@[j][i].0 && promoted_slot(
                    old(self)@[j][i].1,
                    final(self)@[j][i].1,
                    final(heap)@,
                    old(heap)@.len() as int,
                ),
            scope_valid(final(self)@, final(heap)@),
            forall|k1: int, k2: int|
                0 <= k1 < k2 < frame_model(r).len() ==> (#[trigger] frame_model(r)[k1]).0 != (
                #[trigger] frame_model(r)[k2]).0,
            forall|k: int|
                0 <= k < frame_model(r).len() ==> scope_lookup(
                    final(self)@,
                    (#[trigger] frame_model(r)[k]).0,
                ) == Some(frame_model(r)[k].1),
            forall|j: int, i: int|
                0 <= j < final(self)@.len() && 0 <= i < final(self)@[j].len() ==> name_in(
                    frame_model(r),
                    (#[trigger] final(self)@[j][i]).0,
                ),
    {
        let nframes = self.vars.len();
        let ghost base = heap@.len() as int;
        let mut j: usize = 0;
        while j < nframes
            invariant
                j <= nframes,
                nframes == self.vars@.len(),
                nframes == old(self)@.len(),
                self@.len() == old(self)@.len(),
                appended_only(heap@, old(heap)@),
                base == old(heap)@.len(),
                forall|k: int| base <= k < heap@.len() ==> (#[trigger] heap@[k]) is Prim,
                forall|jj: int|
                    0 <= jj < nframes ==> (#[trigger] self@[jj]).len() == old(self)@[jj].len(),
                forall|jj: int, ii: int|
                    0 <= jj < nframes && 0 <= ii < old(self)@[jj].len() ==> (#[trigger] self@[jj][ii]).0
                        == old(self)@[jj][ii].0,
                forall|jj: int, ii: int|
                    0 <= jj < j && 0 <= ii < old(self)@[jj].len() ==> promoted_slot(
                        old(self)@[jj][ii].1,
                        (#[trigger] self@[jj][ii]).1,
                        heap@,
                        base,
                    ),
                forall|jj: int, ii: int|
                    j <= jj < nframes && 0 <= ii < old(self)@[jj].len() ==> (
                    #[trigger] self@[jj][ii]).1 == old(self)@[jj][ii].1,
            decreases nframes - j,
        {
            let ghost svars = self.vars@;
            let ghost smodel = self@;
            let ghost h0 = heap@;
            let flen = self.vars[j].len();
            let mut newf: Frame = Vec::new();
            let mut i: usize = 0;
            while i < flen
                invariant
                    i <= flen,
                    j < nframes,
                    self.vars@ == svars,
                    nframes == svars.len(),
                    flen == self@[j as int].len(),
                    flen == self.vars@[j as int]@.len(),
                    newf@.len() == i,
                    appended_only(heap@, h0),
                    appended_only(h0, old(heap)@),
                    base == old(heap)@.len(),
                    forall|k: int| base <= k < heap@.len() ==> (#[trigger] heap@[k]) is Prim,
                    forall|k: int|
                        0 <= k < i ==> (#[trigger] frame_model(newf)[k]).0 == self@[j as int][k].0,
                    forall|k: int|
                        0 <= k < i ==> promoted_slot(
                            self@[j as int][k].1,
                            (#[trigger] frame_model(newf)[k]).1,
                            heap@,
                            base,
                        ),
                decreases flen - i,
            {
                proof {
                    assert(self@[j as int] == frame_model(self.vars@[j as int]));
                }
                let ghost prevf = frame_model(newf);
                let ghost hprev = heap@;
                let is_plain = match &self.vars[j][i].1 {
                    Value::Val(_) => true,
                    _ => false,
                };
                let nm = self.vars[j][i].0.clone();
                if is_plain {
                    let p = match &self.vars[j][i].1 {
                        Value::Val(p) => *p,
                        _ => {
                            proof {
                                assert(false);
                            }
                            crate::value::VType::B(false)
                        },
                    };
                    let ix = heap.add_cell(HeapVal::Prim(p));
                    newf.push((nm, Value::Ref(ix)));
                    proof {
                        assert(heap@[ix as int] == HeapVal::Prim(p));
                        assert(promoted_slot(
                            self@[j as int][i as int].1,
                            Value::Ref(ix),
                            heap@,
                            base,
                        ));
                    }
                } else {
                    let slot = self.vars[j][i].1.dup();
                    newf.push((nm, slot));
                }
                proof {
                    assert forall|k: int| 0 <= k < prevf.len() implies #[trigger] frame_model(
                        newf,
                    )[k] == prevf[k] by {
                        assert(newf@[k] == newf@.drop_last()[k]);
                    }
                    assert(frame_model(newf).len() == prevf.len() + 1);
                    assert(frame_model(newf)[i as int].0 == self@[j as int][i as int].0);
                    assert(appended_only(heap@, hprev));
                    assert forall|k: int| 0 <= k < prevf.len() implies promoted_slot(
                        self@[j as int][k].1,
                        (#[trigger] frame_model(newf)[k]).1,
                        heap@,
                        base,
                    ) by {
                        lemma_promoted_slot_grow(
                            self@[j as int][k].1,
                            prevf[k].1,
                            hprev,
                            heap@,
                            base,
                        );
                    }
                }
                i += 1;
            }
            self.vars.set(j, newf);
            proof {
                assert forall|jj: int| 0 <= jj < nframes && jj != j implies #[trigger] self@[jj]
                    == smodel[jj] by {}
                assert(self@[j as int] == frame_model(self.vars@[j as int]));
                assert forall|jj: int, ii: int|
                    0 <= jj < j && 0 <= ii < old(self)@[jj].len() implies promoted_slot(
                    old(self)@[jj][ii].1,
                    (#[trigger] self@[jj][ii]).1,
                    heap@,
                    base,
                ) by {
                    lemma_promoted_slot_grow(
                        old(self)@[jj][ii].1,
                        smodel[jj][ii].1,
                        h0,
                        heap@,
                        base,
                    );
                }
            }
            j += 1;
        }
        proof {
            lemma_appended_only_extends(heap@, old(heap)@);
            assert forall|jj: int, ii: int|
                0 <= jj < self@.len() && 0 <= ii < self@[jj].len() implies valid_value(
                #[trigger] self@[jj][ii].1,
                heap@,
            ) by {
                assert(valid_value(old(self)@[jj][ii].1, old(heap)@));
                if old(self)@[jj][ii].1 is Val {
                } else {
                    assert(self@[jj][ii].1 == old(self)@[jj][ii].1);
                    lemma_valid_value_extends(old(self)@[jj][ii].1, old(heap)@, heap@);
                }
            }
        }
        self.collect_bindings()
    }
}

} // verus!
