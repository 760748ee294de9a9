//! The arena of shared cells.
//!
//! Reference-type data (text, lists, objects, maps, promoted primitives,
//! pair members, closure bodies and captures) lives in cells of this arena;
//! a `Value` holds the cell's index.  Many values may hold the same index, so
//! mutation through any of them is visible through all — the aliasing model
//! the language asks for, made explicit.
//!
//! Cells never change kind once allocated (`heap_extends`), which is what
//! keeps a handle valid for the rest of a run.

use vstd::prelude::*;
use vstd::pervasive::VecAdditionalExecFns;
use crate::value::{HashV, VType, Value};

verus! {

/// The content of one shared cell.
pub enum HeapVal {
    /// A promoted primitive; the only cell whose content a plain write can
    /// overwrite in place.
    Prim(VType),
    /// One member of a pair.
    Cell(Value),
    Text(String),
    List(Vec<Value>),
    /// Field name to value, in insertion order, names unique.
    Obj(Vec<(String, Value)>),
    /// Key hash to (original key, value), in insertion order, hashes unique.
    Dict(Vec<(HashV, Value, Value)>),
    /// A closure's captured bindings.
    Capture(Vec<(String, Value)>),
}

/// The kind of a cell: fixed for the cell's whole lifetime.
pub enum HeapKind {
    Prim,
    Cell,
    Text,
    List,
    Obj,
    Dict,
    Capture,
}

pub open spec fn kind_of(c: HeapVal) -> HeapKind {
    match c {
        HeapVal::Prim(_) => HeapKind::Prim,
        HeapVal::Cell(_) => HeapKind::Cell,
        HeapVal::Text(_) => HeapKind::Text,
        HeapVal::List(_) => HeapKind::List,
        HeapVal::Obj(_) => HeapKind::Obj,
        HeapVal::Dict(_) => HeapKind::Dict,
        HeapVal::Capture(_) => HeapKind::Capture,
    }
}

/// A handle is valid when it points inside the heap at a cell of the kind
/// the handle's variant demands.
pub open spec fn valid_value(v: Value, h: Seq<HeapVal>) -> bool {
    match v {
        Value::Val(_) => true,
        Value::Null => true,
        Value::Func(_, _) => true,
        Value::Ref(i) => i < h.len() && h[i as int] is Prim,
        Value::Pair(a, b) => a < h.len() && h[a as int] is Cell && b < h.len() && h[b as int]
            is Cell,
        Value::Str(i) => i < h.len() && h[i as int] is Text,
        Value::List(i) => i < h.len() && h[i as int] is List,
        Value::Obj(i) => i < h.len() && h[i as int] is Obj,
        Value::Dict(i) => i < h.len() && h[i as int] is Dict,
        Value::Closure(_, c) => c < h.len() && h[c as int] is Capture,
    }
}

/// Every value a cell contains is itself a valid handle.
pub open spec fn cell_ok(c: HeapVal, h: Seq<HeapVal>) -> bool {
    match c {
        HeapVal::Prim(_) => true,
        HeapVal::Text(_) => true,
        HeapVal::Cell(v) => valid_value(v, h),
        HeapVal::List(l) => forall|i: int| 0 <= i < l@.len() ==> valid_value(#[trigger] l@[i], h),
        HeapVal::Obj(o) => forall|i: int|
            0 <= i < o@.len() ==> valid_value((#[trigger] o@[i]).1, h),
        HeapVal::Dict(m) => forall|i: int|
            0 <= i < m@.len() ==> valid_value((#[trigger] m@[i]).1, h) && valid_value(m@[i].2, h),
        HeapVal::Capture(cap) => forall|i: int|
            0 <= i < cap@.len() ==> valid_value((#[trigger] cap@[i]).1, h),
    }
}

/// The heap invariant: every cell's contents are valid handles.
pub open spec fn heap_wf(h: Seq<HeapVal>) -> bool {
    forall|i: int| 0 <= i < h.len() ==> cell_ok(#[trigger] h[i], h)
}

/// `h2` is a later state of `h1`: no cell was removed and none changed kind.
/// Contents may differ and new cells may exist.
pub open spec fn heap_extends(h2: Seq<HeapVal>, h1: Seq<HeapVal>) -> bool {
    h1.len() <= h2.len() && forall|i: int|
        0 <= i < h1.len() ==> kind_of(#[trigger] h2[i]) == kind_of(#[trigger] h1[i])
}

/// `h2` is `h1` with cells appended: nothing existing was touched.
pub open spec fn appended_only(h2: Seq<HeapVal>, h1: Seq<HeapVal>) -> bool {
    h1.len() <= h2.len() && forall|i: int| 0 <= i < h1.len() ==> h2[i] == h1[i]
}

pub proof fn lemma_appended_only_extends(h2: Seq<HeapVal>, h1: Seq<HeapVal>)
    requires
        appended_only(h2, h1),
    ensures
        heap_extends(h2, h1),
{
}

/// Validity of a handle survives any later heap state.
pub proof fn lemma_valid_value_extends(v: Value, h1: Seq<HeapVal>, h2: Seq<HeapVal>)
    requires
        valid_value(v, h1),
        heap_extends(h2, h1),
    ensures
        valid_value(v, h2),
{
}

/// Validity of a cell's contents survives any later heap state.
pub proof fn lemma_cell_ok_extends(c: HeapVal, h1: Seq<HeapVal>, h2: Seq<HeapVal>)
    requires
        cell_ok(c, h1),
        heap_extends(h2, h1),
    ensures
        cell_ok(c, h2),
{
    match c {
        HeapVal::Cell(v) => {
            lemma_valid_value_extends(v, h1, h2);
        },
        _ => {},
    }
}

pub proof fn lemma_heap_extends_trans(h3: Seq<HeapVal>, h2: Seq<HeapVal>, h1: Seq<HeapVal>)
    requires
        heap_extends(h3, h2),
        heap_extends(h2, h1),
    ensures
        heap_extends(h3, h1),
{
    assert forall|i: int| 0 <= i < h1.len() implies kind_of(#[trigger] h3[i]) == kind_of(
        #[trigger] h1[i],
    ) by {
        assert(kind_of(h2[i]) == kind_of(h1[i]));
    }
}

/// Appending a well-formed cell keeps the heap well formed.
pub proof fn lemma_wf_alloc(h: Seq<HeapVal>, c: HeapVal)
    requires
        heap_wf(h),
        cell_ok(c, h.push(c)),
    ensures
        heap_wf(h.push(c)),
        heap_extends(h.push(c), h),
{
    let h2 = h.push(c);
    assert forall|i: int| 0 <= i < h2.len() implies cell_ok(#[trigger] h2[i], h2) by {
        if i < h.len() {
            lemma_cell_ok_extends(h[i], h, h2);
        }
    }
}

/// Overwriting a cell with one of the same kind and well-formed contents
/// keeps the heap well formed.
pub proof fn lemma_wf_update(h: Seq<HeapVal>, i: int, c: HeapVal)
    requires
        heap_wf(h),
        0 <= i < h.len(),
        kind_of(c) == kind_of(h[i]),
        cell_ok(c, h.update(i, c)),
    ensures
        heap_wf(h.update(i, c)),
        heap_extends(h.update(i, c), h),
{
    let h2 = h.update(i, c);
    assert forall|j: int| 0 <= j < h2.len() implies cell_ok(#[trigger] h2[j], h2) by {
        if j != i {
            lemma_cell_ok_extends(h[j], h, h2);
        }
    }
}

/// Transitivity of `heap_extends`, available wherever both steps are known.
pub broadcast proof fn axiom_heap_extends_trans(h3: Seq<HeapVal>, h2: Seq<HeapVal>, h1: Seq<HeapVal>)
    requires
        #[trigger] heap_extends(h3, h2),
        #[trigger] heap_extends(h2, h1),
    ensures
        heap_extends(h3, h1),
{
    lemma_heap_extends_trans(h3, h2, h1);
}

/// A valid handle stays valid in a later heap state, available wherever both
/// facts are known.
pub broadcast proof fn axiom_valid_value_extends(v: Value, h1: Seq<HeapVal>, h2: Seq<HeapVal>)
    requires
        #[trigger] valid_value(v, h1),
        #[trigger] heap_extends(h2, h1),
    ensures
        valid_value(v, h2),
{
}

/// The arena itself.
pub struct Heap {
    pub cells: Vec<HeapVal>,
}

impl View for Heap {
    type V = Seq<HeapVal>;

    open spec fn view(&self) -> Seq<HeapVal> {
        self.cells@
    }
}

impl Heap {
    pub fn new() -> (r: Heap)
        ensures
            r@.len() == 0,
            heap_wf(r@),
    {
        Heap { cells: Vec::new() }
    }

    pub fn len(&self) -> (r: usize)
        ensures
            r == self@.len(),
    {
        self.cells.len()
    }

    /// Make a new cell; its index is the old length.
    pub fn add_cell(&mut self, c: HeapVal) -> (r: usize)
        ensures
            final(self)@ == old(self)@.push(c),
            r == old(self)@.len(),
            heap_extends(final(self)@, old(self)@),
    {
        let n = self.cells.len();
        self.cells.push(c);
        proof {
            assert(final(self)@ =~= old(self)@.push(c));
        }
        n
    }

    /// Make a new cell, under the heap invariant: the cell's own contents
    /// must be valid handles already.
    pub fn new_cell(&mut self, c: HeapVal) -> (r: usize)
        requires
            heap_wf(old(self)@),
            cell_ok(c, old(self)@),
        ensures
            final(self)@ == old(self)@.push(c),
            r == old(self)@.len(),
            heap_wf(final(self)@),
            appended_only(final(self)@, old(self)@),
            heap_extends(final(self)@, old(self)@),
    {
        proof {
            lemma_appended_only_extends(old(self)@.push(c), old(self)@);
            lemma_cell_ok_extends(c, old(self)@, old(self)@.push(c));
            lemma_wf_alloc(old(self)@, c);
        }
        let n = self.cells.len();
        self.cells.push(c);
        proof {
            assert(final(self)@ =~= old(self)@.push(c));
        }
        n
    }

    /// Move a cell's content out, leaving a placeholder; used together with
    /// `set` to mutate a cell in place.
    pub fn take(&mut self, i: usize) -> (r: HeapVal)
        requires
            i < old(self)@.len(),
        ensures
            r == old(self)@[i as int],
            final(self)@ == old(self)@.update(i as int, HeapVal::Prim(VType::B(false))),
    {
        let mut c = HeapVal::Prim(VType::B(false));
        self.cells.set_and_swap(i, &mut c);
        proof {
            assert(final(self)@ =~= old(self)@.update(i as int, HeapVal::Prim(VType::B(false))));
        }
        c
    }

    pub fn get(&self, i: usize) -> (r: &HeapVal)
        requires
            i < self@.len(),
        ensures
            *r == self@[i as int],
    {
        &self.cells[i]
    }

    pub fn set(&mut self, i: usize, c: HeapVal)
        requires
            i < old(self)@.len(),
        ensures
            final(self)@ == old(self)@.update(i as int, c),
    {
        self.cells[i] = c;
        proof {
            assert(final(self)@ =~= old(self)@.update(i as int, c));
        }
    }
}

} // verus!
