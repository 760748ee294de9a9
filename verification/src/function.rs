//! The dispatch registry: package name to callable package.
//!
//! A package is a mapping from function name to function body
//! (`ScriptPackage`); attaching one under a name makes its functions callable
//! through `call_fn` (in the evaluator), which may recurse back into the
//! registry for cross-package calls.

use vstd::prelude::*;
use crate::ast::{FuncRoot, ScriptPackage};
use crate::text::str_eq;

verus! {

/// The first package registered under `n`, or -1.
pub open spec fn pkg_find(ps: Seq<(String, ScriptPackage)>, n: Seq<char>) -> int
    decreases ps.len(),
{
    if ps.len() == 0 {
        -1
    } else if ps.first().0@ == n {
        0
    } else {
        let r = pkg_find(ps.drop_first(), n);
        if r < 0 {
            -1
        } else {
            r + 1
        }
    }
}

pub proof fn lemma_pkg_find_props(ps: Seq<(String, ScriptPackage)>, n: Seq<char>)
    ensures
        pkg_find(ps, n) == -1 || 0 <= pkg_find(ps, n) < ps.len(),
        pkg_find(ps, n) >= 0 ==> ps[pkg_find(ps, n)].0@ == n,
        pkg_find(ps, n) == -1 ==> forall|k: int| 0 <= k < ps.len() ==> (#[trigger] ps[k]).0@ != n,
        pkg_find(ps, n) >= 0 ==> forall|k: int|
            0 <= k < pkg_find(ps, n) ==> (#[trigger] ps[k]).0@ != n,
    decreases ps.len(),
{
    if ps.len() > 0 && ps.first().0@ != n {
        lemma_pkg_find_props(ps.drop_first(), n);
        assert forall|k: int| 1 <= k < ps.len() implies ps.drop_first()[k - 1] == #[trigger] ps[k] by {}
    }
}

pub proof fn lemma_pkg_find_at(ps: Seq<(String, ScriptPackage)>, n: Seq<char>, i: int)
    requires
        0 <= i < ps.len(),
        ps[i].0@ == n,
        forall|k: int| 0 <= k < i ==> (#[trigger] ps[k]).0@ != n,
    ensures
        pkg_find(ps, n) == i,
    decreases ps.len(),
{
    if i > 0 {
        assert(ps.first().0@ != n);
        assert forall|k: int| 1 <= k < ps.len() implies ps.drop_first()[k - 1] == #[trigger] ps[k] by {}
        lemma_pkg_find_at(ps.drop_first(), n, i - 1);
    }
}

/// The first function named `n` in a package, or -1.
pub open spec fn func_find(fs: Seq<(String, FuncRoot)>, n: Seq<char>) -> int
    decreases fs.len(),
{
    if fs.len() == 0 {
        -1
    } else if fs.first().0@ == n {
        0
    } else {
        let r = func_find(fs.drop_first(), n);
        if r < 0 {
            -1
        } else {
            r + 1
        }
    }
}

pub proof fn lemma_func_find_props(fs: Seq<(String, FuncRoot)>, n: Seq<char>)
    ensures
        func_find(fs, n) == -1 || 0 <= func_find(fs, n) < fs.len(),
        func_find(fs, n) >= 0 ==> fs[func_find(fs, n)].0@ == n,
        func_find(fs, n) == -1 ==> forall|k: int| 0 <= k < fs.len() ==> (#[trigger] fs[k]).0@ != n,
        func_find(fs, n) >= 0 ==> forall|k: int|
            0 <= k < func_find(fs, n) ==> (#[trigger] fs[k]).0@ != n,
    decreases fs.len(),
{
    if fs.len() > 0 && fs.first().0@ != n {
        lemma_func_find_props(fs.drop_first(), n);
        assert forall|k: int| 1 <= k < fs.len() implies fs.drop_first()[k - 1] == #[trigger] fs[k] by {}
    }
}

pub proof fn lemma_func_find_at(fs: Seq<(String, FuncRoot)>, n: Seq<char>, i: int)
    requires
        0 <= i < fs.len(),
        fs[i].0@ == n,
        forall|k: int| 0 <= k < i ==> (#[trigger] fs[k]).0@ != n,
    ensures
        func_find(fs, n) == i,
    decreases fs.len(),
{
    if i > 0 {
        assert(fs.first().0@ != n);
        assert forall|k: int| 1 <= k < fs.len() implies fs.drop_first()[k - 1] == #[trigger] fs[k] by {}
        lemma_func_find_at(fs.drop_first(), n, i - 1);
    }
}

/// Both lookups succeed: the package exists and has the function.
pub open spec fn found_fn(ps: Seq<(String, ScriptPackage)>, pkg: Seq<char>, n: Seq<char>) -> bool {
    pkg_find(ps, pkg) >= 0 && func_find(ps[pkg_find(ps, pkg)].1.funcs@, n) >= 0
}

/// The function registered under a package name and function name (only
/// meaningful where both lookups succeed).
pub open spec fn registered_func(
    ps: Seq<(String, ScriptPackage)>,
    pkg: Seq<char>,
    n: Seq<char>,
) -> FuncRoot
    recommends
        pkg_find(ps, pkg) >= 0,
        func_find(ps[pkg_find(ps, pkg)].1.funcs@, n) >= 0,
{
    ps[pkg_find(ps, pkg)].1.funcs@[func_find(ps[pkg_find(ps, pkg)].1.funcs@, n)].1
}

/// The registry.
pub struct FuncMap {
    pub packages: Vec<(String, ScriptPackage)>,
}

impl FuncMap {
    pub fn new() -> (r: Self)
        ensures
            r.packages@.len() == 0,
    {
        FuncMap { packages: Vec::new() }
    }

    /// Register a package under a name; a package already registered under
    /// the same name is replaced.
    pub fn attach_package(&mut self, package_name: &str, package: ScriptPackage)
        ensures
            pkg_find(old(self).packages@, package_name@) == -1 ==> final(self).packages@.len()
                == old(self).packages@.len() + 1 && final(self).packages@.last().0@
                == package_name@ && final(self).packages@.last().1 == package && (forall|k: int|
                0 <= k < old(self).packages@.len() ==> final(self).packages@[k] == old(
                    self,
                ).packages@[k]),
            pkg_find(old(self).packages@, package_name@) >= 0 ==> final(self).packages@.len()
                == old(self).packages@.len() && final(self).packages@[pkg_find(
                old(self).packages@,
                package_name@,
            )].0@ == package_name@ && final(self).packages@[pkg_find(
                old(self).packages@,
                package_name@,
            )].1 == package && (forall|k: int|
                0 <= k < old(self).packages@.len() && k != pkg_find(
                    old(self).packages@,
                    package_name@,
                ) ==> final(self).packages@[k] == old(self).packages@[k]),
    {
        let n = self.packages.len();
        let mut k: usize = 0;
        while k < n
            invariant
                k <= n,
                n == self.packages@.len(),
                self.packages@ == old(self).packages@,
                forall|kk: int| 0 <= kk < k ==> (#[trigger] self.packages@[kk]).0@ != package_name@,
            decreases n - k,
        {
            if str_eq(package_name, self.packages[k].0.as_str()) {
                proof {
                    lemma_pkg_find_at(self.packages@, package_name@, k as int);
                }
                let nm = self.packages[k].0.clone();
                self.packages.set(k, (nm, package));
                return ;
            }
            k += 1;
        }
        proof {
            lemma_pkg_find_props(self.packages@, package_name@);
            if pkg_find(self.packages@, package_name@) >= 0 {
                assert(self.packages@[pkg_find(self.packages@, package_name@)].0@
                    == package_name@);
            }
        }
        self.packages.push((package_name.to_owned(), package));
    }

    /// The package registered under `package`, if any.
    pub fn find_package(&self, package: &str) -> (r: Option<&ScriptPackage>)
        ensures
            r matches Some(p) ==> pkg_find(self.packages@, package@) >= 0 && *p
                == self.packages@[pkg_find(self.packages@, package@)].1,
            r is None ==> pkg_find(self.packages@, package@) == -1,
    {
        let n = self.packages.len();
        let mut k: usize = 0;
        while k < n
            invariant
                k <= n,
                n == self.packages@.len(),
                forall|kk: int| 0 <= kk < k ==> (#[trigger] self.packages@[kk]).0@ != package@,
            decreases n - k,
        {
            if str_eq(package, self.packages[k].0.as_str()) {
                proof {
                    lemma_pkg_find_at(self.packages@, package@, k as int);
                }
                return Some(&self.packages[k].1);
            }
            k += 1;
        }
        proof {
            lemma_pkg_find_props(self.packages@, package@);
            if pkg_find(self.packages@, package@) >= 0 {
                assert(self.packages@[pkg_find(self.packages@, package@)].0@ == package@);
            }
        }
        None
    }
}

impl ScriptPackage {
    /// The function named `name` in this package, if any.
    pub fn find_func(&self, name: &str) -> (r: Option<&FuncRoot>)
        ensures
            r matches Some(f) ==> func_find(self.funcs@, name@) >= 0 && *f
                == self.funcs@[func_find(self.funcs@, name@)].1,
            r is None ==> func_find(self.funcs@, name@) == -1,
    {
        let n = self.funcs.len();
        let mut k: usize = 0;
        while k < n
            invariant
                k <= n,
                n == self.funcs@.len(),
                forall|kk: int| 0 <= kk < k ==> (#[trigger] self.funcs@[kk]).0@ != name@,
            decreases n - k,
        {
            if str_eq(name, self.funcs[k].0.as_str()) {
                proof {
                    lemma_func_find_at(self.funcs@, name@, k as int);
                }
                return Some(&self.funcs[k].1);
            }
            k += 1;
        }
        proof {
            lemma_func_find_props(self.funcs@, name@);
            if func_find(self.funcs@, name@) >= 0 {
                assert(self.funcs@[func_find(self.funcs@, name@)].0@ == name@);
            }
        }
        None
    }
}

} // verus!
