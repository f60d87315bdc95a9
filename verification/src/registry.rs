//! The runtime type registry: a process-wide catalogue mapping a type's
//! canonical path to its descriptor. Entries are inserted at startup and never
//! removed; the one controlled mutation is a temporary substitution of a
//! single entry, which the caller must restore exactly once.

use vstd::prelude::*;
use crate::shape::TypeDescriptor;
use crate::shape::TypeDescV;
use crate::text::str_eq;

verus! {

/// First entry whose canonical path is `p`, searching front to back.
pub open spec fn spec_lookup_path(r: Seq<TypeDescV>, p: Seq<char>) -> Option<TypeDescV>
    decreases r.len(),
{
    if r.len() == 0 {
        None
    } else if r[0].canonical_path == p {
        Some(r[0])
    } else {
        spec_lookup_path(r.subrange(1, r.len() as int), p)
    }
}

/// Index of the first entry whose canonical path is `p`; meaningful only when
/// such an entry exists.
pub open spec fn spec_path_index(r: Seq<TypeDescV>, p: Seq<char>) -> int
    decreases r.len(),
{
    if r.len() == 0 {
        0
    } else if r[0].canonical_path == p {
        0
    } else {
        1 + spec_path_index(r.subrange(1, r.len() as int), p)
    }
}

/// First entry whose short name is `n`, searching front to back; a collision
/// between short names is tolerated and the first match wins.
pub open spec fn spec_lookup_short(r: Seq<TypeDescV>, n: Seq<char>) -> Option<TypeDescV>
    decreases r.len(),
{
    if r.len() == 0 {
        None
    } else if r[0].short_name == n {
        Some(r[0])
    } else {
        spec_lookup_short(r.subrange(1, r.len() as int), n)
    }
}

/// Canonical paths are globally unique.
pub open spec fn spec_registry_wf(r: Seq<TypeDescV>) -> bool {
    forall|i: int, j: int|
        0 <= i < j < r.len() ==> (#[trigger] r[i]).canonical_path != (#[trigger] r[j]).canonical_path
}

#[derive(Debug)]
pub enum RegistryError {
    DuplicatePath,
}

/// The registry itself: an ordered catalogue of descriptors. Iteration order
/// is the registration order, which makes every walk of the registry
/// deterministic.
pub struct TypeRegistry {
    pub entries: Vec<TypeDescriptor>,
}

impl View for TypeRegistry {
    type V = Seq<TypeDescV>;

    open spec fn view(&self) -> Seq<TypeDescV> {
        self.entries@.map_values(|d: TypeDescriptor| d@)
    }
}

proof fn lemma_lookup_path_step(r: Seq<TypeDescV>, p: Seq<char>, i: int)
    requires
        0 <= i < r.len(),
        r[i].canonical_path != p,
    ensures
        spec_lookup_path(r.subrange(i, r.len() as int), p) == spec_lookup_path(
            r.subrange(i + 1, r.len() as int),
            p,
        ),
{
    let tail = r.subrange(i, r.len() as int);
    assert(tail[0] == r[i]);
    assert(tail.subrange(1, tail.len() as int) =~= r.subrange(i + 1, r.len() as int));
}

proof fn lemma_lookup_short_step(r: Seq<TypeDescV>, n: Seq<char>, i: int)
    requires
        0 <= i < r.len(),
        r[i].short_name != n,
    ensures
        spec_lookup_short(r.subrange(i, r.len() as int), n) == spec_lookup_short(
            r.subrange(i + 1, r.len() as int),
            n,
        ),
{
    let tail = r.subrange(i, r.len() as int);
    assert(tail[0] == r[i]);
    assert(tail.subrange(1, tail.len() as int) =~= r.subrange(i + 1, r.len() as int));
}

proof fn lemma_path_index_step(r: Seq<TypeDescV>, p: Seq<char>, i: int)
    requires
        0 <= i < r.len(),
        r[i].canonical_path != p,
    ensures
        spec_path_index(r.subrange(i, r.len() as int), p) == 1 + spec_path_index(
            r.subrange(i + 1, r.len() as int),
            p,
        ),
{
    let tail = r.subrange(i, r.len() as int);
    assert(tail[0] == r[i]);
    assert(tail.subrange(1, tail.len() as int) =~= r.subrange(i + 1, r.len() as int));
}

impl TypeRegistry {
    pub fn new() -> (r: TypeRegistry)
        ensures
            r@ == Seq::<TypeDescV>::empty(),
            spec_registry_wf(r@),
    {
        let r = TypeRegistry { entries: Vec::new() };
        proof {
            assert(r@ =~= Seq::<TypeDescV>::empty());
        }
        r
    }

    pub fn len(&self) -> (n: usize)
        ensures
            n as nat == self@.len(),
    {
        self.entries.len()
    }

    pub fn entry_at(&self, i: usize) -> (d: &TypeDescriptor)
        requires
            i < self@.len(),
        ensures
            d@ == self@[i as int],
    {
        &self.entries[i]
    }

    /// Register a new type. A second entry under an already-registered
    /// canonical path is refused, which keeps canonical paths unique.
    pub fn register(&mut self, d: TypeDescriptor) -> (r: Result<(), RegistryError>)
        ensures
            match r {
                Ok(()) => spec_lookup_path(old(self)@, d@.canonical_path) is None && final(self)@
                    == old(self)@.push(d@),
                Err(_) => spec_lookup_path(old(self)@, d@.canonical_path) is Some && final(self)@
                    == old(self)@,
            },
            spec_registry_wf(old(self)@) ==> spec_registry_wf(final(self)@),
    {
        let existing = self.lookup_by_path(d.canonical_path.as_str());
        if existing.is_some() {
            return Err(RegistryError::DuplicatePath);
        }
        proof {
            lemma_lookup_none_no_match(self@, d@.canonical_path);
            assert(old(self)@.push(d@) =~= self.entries@.push(d).map_values(
                |x: TypeDescriptor| x@,
            ));
            if spec_registry_wf(old(self)@) {
                let newv = old(self)@.push(d@);
                assert forall|i: int, j: int| 0 <= i < j < newv.len() implies (#[trigger] newv[i])
                    .canonical_path != (#[trigger] newv[j]).canonical_path by {
                    if j == newv.len() - 1 {
                        assert(newv[i] == old(self)@[i]);
                    }
                }
            }
        }
        self.entries.push(d);
        Ok(())
    }

    /// Lookup by canonical path: the collision-free channel.
    pub fn lookup_by_path(&self, p: &str) -> (r: Option<&TypeDescriptor>)
        ensures
            match r {
                Some(d) => spec_lookup_path(self@, p@) == Some(d@),
                None => spec_lookup_path(self@, p@) is None,
            },
    {
        let n = self.entries.len();
        let mut i: usize = 0;
        proof {
            assert(self@.subrange(0, n as int) =~= self@);
        }
        while i < n
            invariant
                n as nat == self@.len(),
                i <= n,
                spec_lookup_path(self@, p@) == spec_lookup_path(
                    self@.subrange(i as int, n as int),
                    p@,
                ),
            decreases n - i,
        {
            if str_eq(self.entries[i].canonical_path.as_str(), p) {
                proof {
                    let tail = self@.subrange(i as int, n as int);
                    assert(tail[0] == self@[i as int]);
                }
                return Some(&self.entries[i]);
            }
            proof {
                lemma_lookup_path_step(self@, p@, i as int);
            }
            i = i + 1;
        }
        proof {
            assert(self@.subrange(n as int, n as int) =~= Seq::<TypeDescV>::empty());
        }
        None
    }

    /// Lookup by derived display name: first match wins when short names
    /// collide, a tolerated ambiguity of the primary channel.
    pub fn lookup_by_short_name(&self, n: &str) -> (r: Option<&TypeDescriptor>)
        ensures
            match r {
                Some(d) => spec_lookup_short(self@, n@) == Some(d@),
                None => spec_lookup_short(self@, n@) is None,
            },
    {
        let ln = self.entries.len();
        let mut i: usize = 0;
        proof {
            assert(self@.subrange(0, ln as int) =~= self@);
        }
        while i < ln
            invariant
                ln as nat == self@.len(),
                i <= ln,
                spec_lookup_short(self@, n@) == spec_lookup_short(
                    self@.subrange(i as int, ln as int),
                    n@,
                ),
            decreases ln - i,
        {
            if str_eq(self.entries[i].short_name.as_str(), n) {
                proof {
                    let tail = self@.subrange(i as int, ln as int);
                    assert(tail[0] == self@[i as int]);
                }
                return Some(&self.entries[i]);
            }
            proof {
                lemma_lookup_short_step(self@, n@, i as int);
            }
            i = i + 1;
        }
        proof {
            assert(self@.subrange(ln as int, ln as int) =~= Seq::<TypeDescV>::empty());
        }
        None
    }

    /// Index of the first entry registered under canonical path `p`.
    fn find_path_index(&self, p: &str) -> (r: Option<usize>)
        ensures
            match r {
                Some(ix) => spec_lookup_path(self@, p@) == Some(self@[ix as int])
                    && ix as int == spec_path_index(self@, p@) && ix < self@.len()
                    && self@[ix as int].canonical_path == p@,
                None => spec_lookup_path(self@, p@) is None,
            },
    {
        let n = self.entries.len();
        let mut i: usize = 0;
        proof {
            assert(self@.subrange(0, n as int) =~= self@);
        }
        while i < n
            invariant
                n as nat == self@.len(),
                i <= n,
                spec_lookup_path(self@, p@) == spec_lookup_path(
                    self@.subrange(i as int, n as int),
                    p@,
                ),
                spec_path_index(self@, p@) == i + spec_path_index(
                    self@.subrange(i as int, n as int),
                    p@,
                ),
            decreases n - i,
        {
            if str_eq(self.entries[i].canonical_path.as_str(), p) {
                proof {
                    let tail = self@.subrange(i as int, n as int);
                    assert(tail[0] == self@[i as int]);
                }
                return Some(i);
            }
            proof {
                lemma_lookup_path_step(self@, p@, i as int);
                lemma_path_index_step(self@, p@, i as int);
            }
            i = i + 1;
        }
        proof {
            assert(self@.subrange(n as int, n as int) =~= Seq::<TypeDescV>::empty());
        }
        None
    }

    /// Temporarily shadow the entry registered under `p` with `d`, returning
    /// the previous descriptor so the caller can restore it exactly once.
    /// Substituting a path that was never registered fails fast and changes
    /// nothing.
    pub fn substitute(&mut self, p: &str, d: TypeDescriptor) -> (r: Option<TypeDescriptor>)
        requires
            d@.canonical_path == p@,
        ensures
            match r {
                Some(prev) => spec_lookup_path(old(self)@, p@) == Some(prev@) && final(self)@
                    == old(self)@.update(spec_path_index(old(self)@, p@), d@),
                None => spec_lookup_path(old(self)@, p@) is None && final(self)@ == old(self)@,
            },
            spec_registry_wf(old(self)@) ==> spec_registry_wf(final(self)@),
    {
        let found = self.find_path_index(p);
        match found {
            None => None,
            Some(i) => {
                let ghost oldv = self@;
                let ghost olde = self.entries@;
                let ghost dv = d@;
                let prev = self.entries.remove(i);
                self.entries.insert(i, d);
                proof {
                    assert(prev == olde[i as int]);
                    assert(prev@ == oldv[i as int]);
                    let newv = self@;
                    assert forall|j: int| 0 <= j < newv.len() implies newv[j] == oldv.update(
                        i as int,
                        dv,
                    )[j] by {
                        assert(newv[j] == self.entries@[j]@);
                        assert(oldv[j] == olde[j]@);
                        if j == i {
                            assert(self.entries@[j]@ == dv);
                        } else {
                            assert(self.entries@[j] == olde[j]);
                        }
                    }
                    assert(newv =~= oldv.update(i as int, dv));
                    if spec_registry_wf(oldv) {
                        assert forall|a: int, b: int|
                            0 <= a < b < newv.len() implies (#[trigger] newv[a]).canonical_path != (
                        #[trigger] newv[b]).canonical_path by {
                            assert(oldv[i as int].canonical_path == p@);
                            if a != i && b != i {
                                assert(newv[a] == oldv[a] && newv[b] == oldv[b]);
                            } else if a == i {
                                assert(newv[b] == oldv[b]);
                                assert(oldv.update(i as int, dv)[a] == dv);
                                assert(newv[a].canonical_path == p@);
                                assert(oldv[a].canonical_path != oldv[b].canonical_path);
                            } else {
                                assert(newv[a] == oldv[a]);
                                assert(oldv.update(i as int, dv)[b] == dv);
                                assert(newv[b].canonical_path == p@);
                                assert(oldv[a].canonical_path != oldv[b].canonical_path);
                            }
                        }
                    }
                }
                Some(prev)
            },
        }
    }

}

/// When a path lookup fails, no entry carries that path.
pub proof fn lemma_lookup_none_no_match(r: Seq<TypeDescV>, p: Seq<char>)
    requires
        spec_lookup_path(r, p) is None,
    ensures
        forall|i: int| 0 <= i < r.len() ==> (#[trigger] r[i]).canonical_path != p,
    decreases r.len(),
{
    if r.len() > 0 {
        let tail = r.subrange(1, r.len() as int);
        lemma_lookup_none_no_match(tail, p);
        assert forall|i: int| 0 <= i < r.len() implies (#[trigger] r[i]).canonical_path != p by {
            if i > 0 {
                assert(tail[i - 1] == r[i]);
            }
        }
    }
}

/// When a path lookup succeeds, the found entry sits at the first matching
/// index and carries the path.
pub proof fn lemma_lookup_found_path(r: Seq<TypeDescV>, p: Seq<char>)
    requires
        spec_lookup_path(r, p) is Some,
    ensures
        0 <= spec_path_index(r, p) < r.len(),
        r[spec_path_index(r, p)].canonical_path == p,
        spec_lookup_path(r, p) == Some(r[spec_path_index(r, p)]),
        forall|i: int| 0 <= i < spec_path_index(r, p) ==> (#[trigger] r[i]).canonical_path != p,
    decreases r.len(),
{
    if r.len() > 0 {
        if r[0].canonical_path == p {
        } else {
            let tail = r.subrange(1, r.len() as int);
            lemma_lookup_found_path(tail, p);
            let k = spec_path_index(tail, p);
            assert(tail[k] == r[k + 1]);
            assert forall|i: int| 0 <= i < spec_path_index(r, p) implies (#[trigger] r[i])
                .canonical_path != p by {
                if i > 0 {
                    assert(tail[i - 1] == r[i]);
                }
            }
        }
    }
}

} // verus!
