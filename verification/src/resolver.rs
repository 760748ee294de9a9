//! Compile-time resolution of package aliases.
//!
//! The parsing collaborator threads one `Resolver` through a compilation:
//! imports register package references (and, inside a package, local
//! function references), and qualified names resolve against them, falling
//! back to the current package.  The runtime itself never consults this; it
//! exists so that no resolution state has to live in globals.

use vstd::prelude::*;
use crate::error::{CompileCode, CriticalCode, Error, Type};
use crate::text::str_eq;

verus! {

/// The value bound to the first entry named `n`, if any.
pub open spec fn refs_lookup(rs: Seq<(String, String)>, n: Seq<char>) -> Option<Seq<char>>
    decreases rs.len(),
{
    if rs.len() == 0 {
        None
    } else if rs.first().0@ == n {
        Some(rs.first().1@)
    } else {
        refs_lookup(rs.drop_first(), n)
    }
}

/// A name bound later shadows nothing: references are kept unique by
/// replacement on insert.
pub proof fn lemma_refs_lookup_at(rs: Seq<(String, String)>, n: Seq<char>, i: int)
    requires
        0 <= i < rs.len(),
        rs[i].0@ == n,
        forall|k: int| 0 <= k < i ==> (#[trigger] rs[k]).0@ != n,
    ensures
        refs_lookup(rs, n) == Some(rs[i].1@),
    decreases rs.len(),
{
    if i > 0 {
        assert(rs.first().0@ != n);
        assert forall|k: int| 1 <= k < rs.len() implies rs.drop_first()[k - 1] == #[trigger] rs[k] by {}
        lemma_refs_lookup_at(rs.drop_first(), n, i - 1);
    }
}

/// Absence of the name everywhere means the lookup misses.
pub proof fn lemma_refs_lookup_none(rs: Seq<(String, String)>, n: Seq<char>)
    requires
        forall|k: int| 0 <= k < rs.len() ==> (#[trigger] rs[k]).0@ != n,
    ensures
        refs_lookup(rs, n) is None,
    decreases rs.len(),
{
    if rs.len() > 0 {
        assert forall|k: int| 1 <= k < rs.len() implies rs.drop_first()[k - 1] == #[trigger] rs[k] by {}
        lemma_refs_lookup_none(rs.drop_first(), n);
    }
}

/// Alias resolution state for one compilation.
pub struct Resolver {
    pub current_package: Option<String>,
    pub package_refs: Vec<(String, String)>,
    pub local_refs: Vec<(String, String)>,
}

/// Insert-or-replace into a reference list: scan for the name, replace its
/// binding, or append a new pair.
fn put_ref(refs: &mut Vec<(String, String)>, name: &str, val: &str)
    ensures
        refs_lookup(final(refs)@, name@) == Some(val@),
        forall|n2: Seq<char>|
            n2 != name@ ==> refs_lookup(final(refs)@, n2) == refs_lookup(old(refs)@, n2),
{
    let n = refs.len();
    let mut k: usize = 0;
    while k < n
        invariant
            k <= n,
            n == refs@.len(),
            refs@ == old(refs)@,
            forall|kk: int| 0 <= kk < k ==> (#[trigger] refs@[kk]).0@ != name@,
        decreases n - k,
    {
        if str_eq(name, refs[k].0.as_str()) {
            let nm = refs[k].0.clone();
            let ghost pre = refs@;
            refs.set(k, (nm, val.to_owned()));
            proof {
                lemma_refs_lookup_at(refs@, name@, k as int);
                assert forall|n2: Seq<char>| n2 != name@ implies refs_lookup(final(refs)@, n2)
                    == refs_lookup(pre, n2) by {
                    lemma_refs_lookup_update(pre, refs@, n2, k as int);
                }
            }
            return ;
        }
        k += 1;
    }
    let ghost pre = refs@;
    refs.push((name.to_owned(), val.to_owned()));
    proof {
        lemma_refs_lookup_at(refs@, name@, pre.len() as int);
        assert forall|n2: Seq<char>| n2 != name@ implies refs_lookup(final(refs)@, n2)
            == refs_lookup(pre, n2) by {
            lemma_refs_lookup_push_other(pre, refs@.last(), n2);
        }
    }
}

/// Replacing an entry leaves every other name's lookup alone, provided the
/// replaced entry keeps its name.
proof fn lemma_refs_lookup_update(
    rs1: Seq<(String, String)>,
    rs2: Seq<(String, String)>,
    n: Seq<char>,
    i: int,
)
    requires
        0 <= i < rs1.len(),
        rs2.len() == rs1.len(),
        rs2[i].0@ == rs1[i].0@,
        rs1[i].0@ != n,
        forall|k: int| 0 <= k < rs1.len() && k != i ==> rs2[k] == rs1[k],
    ensures
        refs_lookup(rs2, n) == refs_lookup(rs1, n),
    decreases rs1.len(),
{
    if rs1.len() > 0 {
        if i == 0 {
            assert(rs2.drop_first() =~= rs1.drop_first());
        } else {
            assert(rs2.first() == rs1.first());
            assert forall|k: int|
                0 <= k < rs1.drop_first().len() && k != i - 1 implies rs2.drop_first()[k]
                == rs1.drop_first()[k] by {
                assert(rs2.drop_first()[k] == rs2[k + 1]);
                assert(rs1.drop_first()[k] == rs1[k + 1]);
            }
            lemma_refs_lookup_update(rs1.drop_first(), rs2.drop_first(), n, i - 1);
        }
    }
}

/// Appending an entry with another name leaves a name's lookup alone.
proof fn lemma_refs_lookup_push_other(
    rs: Seq<(String, String)>,
    e: (String, String),
    n: Seq<char>,
)
    requires
        e.0@ != n,
    ensures
        refs_lookup(rs.push(e), n) == refs_lookup(rs, n),
    decreases rs.len(),
{
    if rs.len() == 0 {
        assert(refs_lookup(rs, n) is None);
        assert(rs.push(e).first() == e);
        assert(rs.push(e).drop_first() =~= Seq::<(String, String)>::empty());
        assert(refs_lookup(rs.push(e).drop_first(), n) is None);
        assert(refs_lookup(rs.push(e), n) is None);
    } else {
        assert(rs.push(e).first() == rs.first());
        if rs.first().0@ == n {
            assert(refs_lookup(rs.push(e), n) == Some(rs.first().1@));
            assert(refs_lookup(rs, n) == Some(rs.first().1@));
        } else {
            assert(rs.push(e).drop_first() =~= rs.drop_first().push(e));
            lemma_refs_lookup_push_other(rs.drop_first(), e, n);
            assert(refs_lookup(rs.push(e), n) == refs_lookup(rs.push(e).drop_first(), n));
            assert(refs_lookup(rs, n) == refs_lookup(rs.drop_first(), n));
        }
    }
}

impl Resolver {
    pub fn new() -> (r: Self)
        ensures
            r.current_package is None,
            r.package_refs@.len() == 0,
            r.local_refs@.len() == 0,
    {
        Resolver { current_package: None, package_refs: Vec::new(), local_refs: Vec::new() }
    }

    /// Set the package that unqualified references resolve to.
    pub fn set_package(&mut self, package_name: &str)
        ensures
            final(self).current_package matches Some(p) && p@ == package_name@,
            final(self).package_refs == old(self).package_refs,
            final(self).local_refs == old(self).local_refs,
    {
        self.current_package = Some(package_name.to_owned());
    }

    /// Register (or re-point) a package alias.
    pub fn add_package_ref(&mut self, package_ref: &str, package_name: &str)
        ensures
            refs_lookup(final(self).package_refs@, package_ref@) == Some(package_name@),
            forall|n2: Seq<char>|
                n2 != package_ref@ ==> refs_lookup(final(self).package_refs@, n2) == refs_lookup(
                    old(self).package_refs@,
                    n2,
                ),
            final(self).local_refs == old(self).local_refs,
            final(self).current_package == old(self).current_package,
    {
        put_ref(&mut self.package_refs, package_ref, package_name);
    }

    /// Resolve a reference: local references first, then package aliases,
    /// then (for an unqualified name) the current package.
    pub fn get_package_ref(&self, package_ref: Option<&str>) -> (r: Result<String, Error>)
        ensures
            package_ref matches Some(pr) ==> (refs_lookup(self.local_refs@, pr@) matches Some(v)
                ==> (r matches Ok(s) && s@ == v)),
            package_ref matches Some(pr) ==> refs_lookup(self.local_refs@, pr@) is None ==> (
            refs_lookup(self.package_refs@, pr@) matches Some(v) ==> (r matches Ok(s) && s@ == v)),
            package_ref matches Some(pr) ==> refs_lookup(self.local_refs@, pr@) is None
                ==> refs_lookup(self.package_refs@, pr@) is None ==> (r matches Err(e)
                && e.err_code == Type::CompileTime(CompileCode::PackageNotFound)),
            package_ref is None ==> (self.current_package matches Some(p) ==> (r matches Ok(s)
                && s@ == p@)),
            package_ref is None ==> self.current_package is None ==> (r matches Err(e)
                && e.err_code == Type::Critical(CriticalCode::NoDefaultPackage)),
    {
        match package_ref {
            Some(s) => {
                match lookup_ref(&self.local_refs, s) {
                    Some(v) => Ok(v),
                    None => {
                        match lookup_ref(&self.package_refs, s) {
                            Some(v) => Ok(v),
                            None => Err(
                                Error::new(Type::CompileTime(CompileCode::PackageNotFound)),
                            ),
                        }
                    },
                }
            },
            None => {
                match &self.current_package {
                    Some(p) => Ok(p.clone()),
                    None => Err(Error::new(Type::Critical(CriticalCode::NoDefaultPackage))),
                }
            },
        }
    }

    /// Forget the current package and every package alias.
    pub fn reset_package_refs(&mut self)
        ensures
            final(self).current_package is None,
            final(self).package_refs@.len() == 0,
            final(self).local_refs == old(self).local_refs,
    {
        self.current_package = None;
        self.package_refs.clear();
    }

    /// Register (or re-point) a local function reference.
    pub fn add_local_ref(&mut self, local_ref: &str, package_name: &str)
        ensures
            refs_lookup(final(self).local_refs@, local_ref@) == Some(package_name@),
            forall|n2: Seq<char>|
                n2 != local_ref@ ==> refs_lookup(final(self).local_refs@, n2) == refs_lookup(
                    old(self).local_refs@,
                    n2,
                ),
            final(self).package_refs == old(self).package_refs,
            final(self).current_package == old(self).current_package,
    {
        put_ref(&mut self.local_refs, local_ref, package_name);
    }

    /// Forget every local function reference.
    pub fn clear_local_refs(&mut self)
        ensures
            final(self).local_refs@.len() == 0,
            final(self).package_refs == old(self).package_refs,
            final(self).current_package == old(self).current_package,
    {
        self.local_refs.clear();
    }
}

/// Scan a reference list for the first binding of `name`.
fn lookup_ref(refs: &Vec<(String, String)>, name: &str) -> (r: Option<String>)
    ensures
        r matches Some(s) ==> refs_lookup(refs@, name@) matches Some(v) && s@ == v,
        r is None ==> refs_lookup(refs@, name@) is None,
{
    let n = refs.len();
    let mut k: usize = 0;
    while k < n
        invariant
            k <= n,
            n == refs@.len(),
            forall|kk: int| 0 <= kk < k ==> (#[trigger] refs@[kk]).0@ != name@,
        decreases n - k,
    {
        if str_eq(name, refs[k].0.as_str()) {
            proof {
                lemma_refs_lookup_at(refs@, name@, k as int);
            }
            return Some(refs[k].1.clone());
        }
        k += 1;
    }
    proof {
        lemma_refs_lookup_none(refs@, name@);
    }
    None
}

} // verus!
