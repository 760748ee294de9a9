//! Key hashing for the associative container.
//!
//! `hash_value` derives the 64-bit key a map uses from a key value: integers
//! and booleans hash their bit pattern, text hashes its characters, and a
//! pair hashes the combination of its two hashed members (recursively, so
//! nested pairs are valid composite keys).  Lists, objects, maps, functions
//! and closures are not hashable.
//!
//! Two distinct keys whose hashes coincide (for instance the integer `0` and
//! `false`, which both hash to `0`) collide: the map keeps one entry and the
//! later insertion silently overwrites the earlier one.  That is a known
//! limitation of the design, not a guarantee; `lemma_hash_collision` pins one
//! such colliding pair down.

use vstd::prelude::*;
use crate::error::{Error, RunCode, Type};
use crate::heap::{Heap, HeapVal};
use crate::value::{HashV, VType, Value};

verus! {

pub const FNV_OFFSET: u64 = 0xcbf29ce484222325;

pub const FNV_PRIME: u64 = 0x100000001b3;

/// How far hashing follows nested pairs before giving up.
pub const HASH_DEPTH: u64 = 4096;

/// Scalars hash their bit pattern.
pub open spec fn spec_hash_prim(p: VType) -> u64 {
    match p {
        VType::I(i) => i as u64,
        VType::B(b) => if b {
            1u64
        } else {
            0u64
        },
    }
}

/// Text hashes its characters, FNV-1a style.
pub open spec fn spec_hash_chars(s: Seq<char>) -> u64
    decreases s.len(),
{
    if s.len() == 0 {
        FNV_OFFSET
    } else {
        (spec_hash_chars(s.drop_last()) ^ (s.last() as u64)).wrapping_mul(FNV_PRIME)
    }
}

/// A pair hashes the ordered combination of its members' hashes.
pub open spec fn combine_hash(x: u64, y: u64) -> u64 {
    x.wrapping_mul(FNV_PRIME) ^ y
}

/// The hash of a key value, or the error that rejects it: `ValueNotHashable`
/// for a kind that cannot key a map, `RecursionLimit` when pairs nest deeper
/// than the fuel allows.
pub open spec fn spec_hash(v: Value, h: Seq<HeapVal>, fuel: nat) -> Result<u64, RunCode>
    decreases fuel,
{
    match v {
        Value::Val(p) => Ok(spec_hash_prim(p)),
        Value::Ref(i) => if i < h.len() {
            match h[i as int] {
                HeapVal::Prim(p) => Ok(spec_hash_prim(p)),
                _ => Err(RunCode::ValueNotHashable),
            }
        } else {
            Err(RunCode::ValueNotHashable)
        },
        Value::Str(i) => if i < h.len() {
            match h[i as int] {
                HeapVal::Text(s) => Ok(spec_hash_chars(s@)),
                _ => Err(RunCode::ValueNotHashable),
            }
        } else {
            Err(RunCode::ValueNotHashable)
        },
        Value::Pair(a, b) => if fuel == 0 {
            Err(RunCode::RecursionLimit)
        } else if a < h.len() && b < h.len() {
            match (h[a as int], h[b as int]) {
                (HeapVal::Cell(va), HeapVal::Cell(vb)) => {
                    match spec_hash(va, h, (fuel - 1) as nat) {
                        Ok(x) => match spec_hash(vb, h, (fuel - 1) as nat) {
                            Ok(y) => Ok(combine_hash(x, y)),
                            Err(c) => Err(c),
                        },
                        Err(c) => Err(c),
                    }
                },
                _ => Err(RunCode::ValueNotHashable),
            }
        } else {
            Err(RunCode::ValueNotHashable)
        },
        _ => Err(RunCode::ValueNotHashable),
    }
}

/// Text hashing, one character at a time.
fn hash_chars(cs: &Vec<char>) -> (r: u64)
    ensures
        r == spec_hash_chars(cs@),
{
    let n = cs.len();
    let mut h: u64 = FNV_OFFSET;
    let mut i: usize = 0;
    while i < n
        invariant
            i <= n,
            n == cs@.len(),
            h == spec_hash_chars(cs@.take(i as int)),
        decreases n - i,
    {
        h = (h ^ (cs[i] as u64)).wrapping_mul(FNV_PRIME);
        i += 1;
        proof {
            assert(cs@.take(i as int).drop_last() =~= cs@.take(i as int - 1));
            assert(cs@.take(i as int).last() == cs@[i as int - 1]);
        }
    }
    proof {
        assert(cs@.take(n as int) =~= cs@);
    }
    h
}

fn hash_rec(val: &Value, heap: &Heap, fuel: u64) -> (r: Result<HashV, Error>)
    ensures
        spec_hash(*val, heap@, fuel as nat) matches Ok(x) ==> r == Ok::<HashV, Error>(x),
        spec_hash(*val, heap@, fuel as nat) matches Err(c) ==> (r matches Err(e) && e.err_code
            == Type::RunTime(c)),
    decreases fuel,
{
    match val {
        Value::Val(p) => Ok(hash_prim(p)),
        Value::Ref(i) => {
            if *i < heap.len() {
                match heap.get(*i) {
                    HeapVal::Prim(p) => Ok(hash_prim(p)),
                    _ => Err(Error::new(Type::RunTime(RunCode::ValueNotHashable))),
                }
            } else {
                Err(Error::new(Type::RunTime(RunCode::ValueNotHashable)))
            }
        },
        Value::Str(i) => {
            if *i < heap.len() {
                match heap.get(*i) {
                    HeapVal::Text(s) => {
                        let cs = crate::text::str_chars(s.as_str());
                        Ok(hash_chars(&cs))
                    },
                    _ => Err(Error::new(Type::RunTime(RunCode::ValueNotHashable))),
                }
            } else {
                Err(Error::new(Type::RunTime(RunCode::ValueNotHashable)))
            }
        },
        Value::Pair(a, b) => {
            if fuel == 0 {
                Err(Error::new(Type::RunTime(RunCode::RecursionLimit)))
            } else if *a < heap.len() && *b < heap.len() {
                let ca_is_cell = match heap.get(*a) {
                    HeapVal::Cell(_) => true,
                    _ => false,
                };
                let cb_is_cell = match heap.get(*b) {
                    HeapVal::Cell(_) => true,
                    _ => false,
                };
                if ca_is_cell && cb_is_cell {
                    let va = match heap.get(*a) {
                        HeapVal::Cell(v) => v,
                        _ => {
                            proof {
                                assert(false);
                            }
                            val
                        },
                    };
                    let x = match hash_rec(va, heap, fuel - 1) {
                        Ok(x) => x,
                        Err(e) => {
                            return Err(e);
                        },
                    };
                    let vb = match heap.get(*b) {
                        HeapVal::Cell(v) => v,
                        _ => {
                            proof {
                                assert(false);
                            }
                            val
                        },
                    };
                    let y = match hash_rec(vb, heap, fuel - 1) {
                        Ok(y) => y,
                        Err(e) => {
                            return Err(e);
                        },
                    };
                    Ok(x.wrapping_mul(FNV_PRIME) ^ y)
                } else {
                    Err(Error::new(Type::RunTime(RunCode::ValueNotHashable)))
                }
            } else {
                Err(Error::new(Type::RunTime(RunCode::ValueNotHashable)))
            }
        },
        _ => Err(Error::new(Type::RunTime(RunCode::ValueNotHashable))),
    }
}

fn hash_prim(p: &VType) -> (r: u64)
    ensures
        r == spec_hash_prim(*p),
{
    match p {
        VType::I(i) => #[verifier::truncate] (*i as u64),
        VType::B(b) => if *b {
            1
        } else {
            0
        },
    }
}

/// The container key derived from a key value; `Err` when the value cannot
/// key a map (or nests pairs beyond `HASH_DEPTH`).  Pure: depends only on the
/// value and the cells it references.
pub fn hash_value(val: &Value, heap: &Heap) -> (r: Result<HashV, Error>)
    ensures
        spec_hash(*val, heap@, HASH_DEPTH as nat) matches Ok(x) ==> r == Ok::<HashV, Error>(x),
        spec_hash(*val, heap@, HASH_DEPTH as nat) matches Err(c) ==> (r matches Err(e)
            && e.err_code == Type::RunTime(c)),
{
    hash_rec(val, heap, HASH_DEPTH)
}

/// The hash-collision hazard, witnessed: the integer `0` and `false` are
/// distinct key values with the same hash, so a map keyed on one is
/// overwritten by an insertion of the other.
pub proof fn lemma_hash_collision(h: Seq<HeapVal>, fuel: nat)
    ensures
        spec_hash(Value::Val(VType::I(0)), h, fuel) == spec_hash(
            Value::Val(VType::B(false)),
            h,
            fuel,
        ),
        Value::Val(VType::I(0)) != Value::Val(VType::B(false)),
{
}

} // verus!
