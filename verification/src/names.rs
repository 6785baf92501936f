//! A set of names kept as a vector without repeats, and the naming rule
//! that keeps new entity names distinct from the ones in use.

use vstd::prelude::*;
use crate::text::{decimal_padded, format_padded, str_eq, owned, concat};

verus! {

/// The characters of each string.
pub open spec fn string_views(items: Seq<String>) -> Seq<Seq<char>> {
    items.map_values(|s: String| s@)
}

/// A set of names.
pub struct NameSet {
    items: Vec<String>,
}

impl NameSet {
    /// The names in the set.
    pub closed spec fn contents(&self) -> Set<Seq<char>> {
        Set::new(|x: Seq<char>| string_views(self.items@).contains(x))
    }

    /// No name is held twice.
    pub closed spec fn wf(&self) -> bool {
        forall|i: int, j: int| 0 <= i < j < self.items@.len() ==> self.items@[i]@ != self.items@[j]@
    }

    /// The empty set.
    pub fn new() -> (s: Self)
        ensures
            s.wf(),
            s.contents() == Set::<Seq<char>>::empty(),
    {
        let s = NameSet { items: Vec::new() };
        assert(s.contents() =~= Set::<Seq<char>>::empty());
        s
    }

    /// Whether `name` is in the set.
    pub fn contains(&self, name: &str) -> (r: bool)
        ensures
            r == self.contents().contains(name@),
    {
        let n = self.items.len();
        let mut i: usize = 0;
        while i < n
            invariant
                n == self.items@.len(),
                i <= n,
                forall|k: int| 0 <= k < i ==> self.items@[k]@ != name@,
            decreases n - i,
        {
            if str_eq(self.items[i].as_str(), name) {
                proof {
                    assert(string_views(self.items@)[i as int] == name@);
                }
                return true;
            }
            i = i + 1;
        }
        proof {
            if string_views(self.items@).contains(name@) {
                let k = choose|k: int| 0 <= k < string_views(self.items@).len()
                    && string_views(self.items@)[k] == name@;
                assert(self.items@[k]@ == name@);
            }
        }
        false
    }

    /// Add `name` (no effect when already present).
    pub fn insert(&mut self, name: &str)
        requires
            old(self).wf(),
        ensures
            final(self).wf(),
            final(self).contents() == old(self).contents().insert(name@),
    {
        if !self.contains(name) {
            self.items.push(owned(name));
            proof {
                let ov = string_views(old(self).items@);
                let nv = string_views(self.items@);
                assert(nv =~= ov.push(name@));
                assert forall|k: int| 0 <= k < ov.len() implies ov[k] != name@ by {
                    if ov[k] == name@ {
                        assert(ov.contains(name@));
                    }
                }
                assert forall|i: int, j: int| 0 <= i < j < self.items@.len() implies self.items@[i]@ != self.items@[j]@ by {
                    assert(nv[i] == self.items@[i]@);
                    assert(nv[j] == self.items@[j]@);
                    if j == self.items@.len() - 1 {
                        assert(ov[i] == nv[i]);
                    } else {
                        assert(old(self).items@[i] == self.items@[i]);
                        assert(old(self).items@[j] == self.items@[j]);
                    }
                }
                assert forall|x: Seq<char>| #[trigger] nv.contains(x) <==> (ov.contains(x) || x == name@) by {
                    if nv.contains(x) {
                        let k = choose|k: int| 0 <= k < nv.len() && nv[k] == x;
                        if k < ov.len() {
                            assert(ov[k] == x);
                        }
                    }
                    if ov.contains(x) {
                        let k = choose|k: int| 0 <= k < ov.len() && ov[k] == x;
                        assert(nv[k] == x);
                    }
                    if x == name@ {
                        assert(nv[ov.len() as int] == x);
                    }
                }
                assert(self.contents() =~= old(self).contents().insert(name@));
            }
        } else {
            assert(self.contents() =~= old(self).contents().insert(name@));
        }
    }

    /// Remove `name` (no effect when absent).
    pub fn remove(&mut self, name: &str)
        requires
            old(self).wf(),
        ensures
            final(self).wf(),
            final(self).contents() == old(self).contents().remove(name@),
    {
        let n = self.items.len();
        let mut i: usize = 0;
        while i < n
            invariant
                n == self.items@.len(),
                self.items@ == old(self).items@,
                old(self).wf(),
                i <= n,
                forall|k: int| 0 <= k < i ==> self.items@[k]@ != name@,
            decreases n - i,
        {
            if str_eq(self.items[i].as_str(), name) {
                let ghost before = self.items@;
                self.items.remove(i);
                proof {
                    let bm = string_views(before);
                    let am = string_views(self.items@);
                    assert(am =~= bm.remove(i as int));
                    assert(bm[i as int] == name@);
                    assert forall|a: int, b: int| 0 <= a < b < self.items@.len() implies self.items@[a]@ != self.items@[b]@ by {
                        let oa = if a < i { a } else { a + 1 };
                        let ob = if b < i { b } else { b + 1 };
                        assert(self.items@[a] == before[oa]);
                        assert(self.items@[b] == before[ob]);
                    }
                    assert forall|x: Seq<char>| #[trigger] am.contains(x) <==> (bm.contains(x) && x != name@) by {
                        if am.contains(x) {
                            let k = choose|k: int| 0 <= k < am.len() && am[k] == x;
                            let ok = if k < i { k } else { k + 1 };
                            assert(bm[ok] == x);
                            assert(before[ok]@ == x);
                            assert(before[i as int]@ == name@);
                            assert(ok != i);
                        }
                        if bm.contains(x) && x != name@ {
                            let k = choose|k: int| 0 <= k < bm.len() && bm[k] == x;
                            assert(k != i);
                            if k < i {
                                assert(am[k] == x);
                            } else {
                                assert(am[k - 1] == x);
                            }
                        }
                    }
                    assert(self.contents() =~= old(self).contents().remove(name@));
                }
                return;
            }
            i = i + 1;
        }
        proof {
            let v = string_views(self.items@);
            assert forall|x: Seq<char>| v.contains(x) implies x != name@ by {
                let k = choose|k: int| 0 <= k < v.len() && v[k] == x;
                assert(self.items@[k]@ == x);
            }
            assert(self.contents() =~= old(self).contents().remove(name@));
        }
    }
}

/// The `i`-th alternative of `base`: `base.001`, `base.002`, ...
pub open spec fn numbered(base: Seq<char>, i: nat) -> Seq<char> {
    base + "."@ + decimal_padded(i, 3)
}

/// Whether alternative `i` is the first free one (among 1..=9999).
pub open spec fn first_free(taken: Set<Seq<char>>, base: Seq<char>, i: int) -> bool {
    &&& 1 <= i < 10000
    &&& !taken.contains(numbered(base, i as nat))
    &&& forall|j: int| 1 <= j < i ==> taken.contains(#[trigger] numbered(base, j as nat))
}

/// The name a new entity called `base` receives when `taken` are in use:
/// `base` itself when free, else the first free alternative `base.NNN`
/// (NNN from 001 to 9999), else `base.dup`.
pub open spec fn unique_name_spec(taken: Set<Seq<char>>, base: Seq<char>) -> Seq<char> {
    if !taken.contains(base) {
        base
    } else if exists|i: int| first_free(taken, base, i) {
        numbered(base, (choose|i: int| first_free(taken, base, i)) as nat)
    } else {
        base + ".dup"@
    }
}

/// There is at most one first free alternative.
pub proof fn lemma_first_free_unique(taken: Set<Seq<char>>, base: Seq<char>, i: int, j: int)
    requires
        first_free(taken, base, i),
        first_free(taken, base, j),
    ensures
        i == j,
{
    if i < j {
        assert(taken.contains(numbered(base, i as nat)));
    } else if j < i {
        assert(taken.contains(numbered(base, j as nat)));
    }
}

/// When no alternative is the first free one, every alternative is taken.
proof fn lemma_no_first_free(taken: Set<Seq<char>>, base: Seq<char>, k: int)
    requires
        1 <= k <= 10000,
        forall|i: int| !first_free(taken, base, i),
    ensures
        forall|j: int| 1 <= j < k ==> taken.contains(#[trigger] numbered(base, j as nat)),
    decreases k,
{
    if k > 1 {
        lemma_no_first_free(taken, base, k - 1);
        if !taken.contains(numbered(base, (k - 1) as nat)) {
            assert(first_free(taken, base, k - 1));
        }
    }
}

/// A new name is distinct from every name in use, unless `base`, all its
/// numbered alternatives and `base.dup` are all in use already.
pub proof fn lemma_unique_name_fresh(taken: Set<Seq<char>>, base: Seq<char>)
    requires
        !(taken.contains(base)
            && (forall|i: int| 1 <= i < 10000 ==> taken.contains(#[trigger] numbered(base, i as nat)))
            && taken.contains(base + ".dup"@)),
    ensures
        !taken.contains(unique_name_spec(taken, base)),
{
    if taken.contains(base) {
        if exists|i: int| first_free(taken, base, i) {
            let c = choose|i: int| first_free(taken, base, i);
            assert(first_free(taken, base, c));
        } else {
            lemma_no_first_free(taken, base, 10000);
        }
    }
}

impl NameSet {
    /// A name derived from `base` that is not in the set (see
    /// [`unique_name_spec`]).
    pub fn unique_name(&self, base: &str) -> (r: String)
        ensures
            r@ == unique_name_spec(self.contents(), base@),
    {
        if !self.contains(base) {
            return owned(base);
        }
        let mut i: u64 = 1;
        while i < 10000
            invariant
                1 <= i <= 10000,
                self.contents().contains(base@),
                forall|j: int| 1 <= j < i ==> self.contents().contains(#[trigger] numbered(base@, j as nat)),
            decreases 10000 - i,
        {
            let mut candidate = concat(base, ".");
            let digits = format_padded(i, 3);
            candidate.append(digits.as_str());
            proof {
                assert(candidate@ == numbered(base@, i as nat));
            }
            if !self.contains(candidate.as_str()) {
                proof {
                    assert(first_free(self.contents(), base@, i as int));
                    let c = choose|k: int| first_free(self.contents(), base@, k);
                    lemma_first_free_unique(self.contents(), base@, i as int, c);
                }
                return candidate;
            }
            i = i + 1;
        }
        proof {
            assert forall|k: int| !first_free(self.contents(), base@, k) by {
                if 1 <= k < 10000 {
                    assert(self.contents().contains(numbered(base@, k as nat)));
                }
            }
        }
        concat(base, ".dup")
    }
}

} // verus!
