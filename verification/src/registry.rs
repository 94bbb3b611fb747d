//! The registry of packages: each stored package (a `Module`) is found by its
//! identifier, and no two stored packages share one.
use vstd::prelude::*;
use crate::schema::PackageMetadata;

verus! {

broadcast use vstd::seq_lib::group_seq_properties;

/// A stored package. `S` holds its ratings, which the registry carries
/// without reading them.
pub struct Module<S> {
    pub name: String,
    /// Identifier of the package: the key under which the registry holds it.
    pub id: String,
    pub ver: String,
    /// Web page of the package.
    pub url: String,
    /// File that holds the zipped content of the package.
    pub path: String,
    pub scores: S,
}

/// Whether some module of `s` has the identifier `id`.
pub open spec fn holds_id<S>(s: Seq<Module<S>>, id: Seq<char>) -> bool {
    exists|i: int| 0 <= i < s.len() && #[trigger] s[i].id@ == id
}

/// Whether no two modules of `s` share an identifier.
pub open spec fn ids_unique<S>(s: Seq<Module<S>>) -> bool {
    forall|i: int, j: int|
        0 <= i < s.len() && 0 <= j < s.len() && i != j ==> #[trigger] s[i].id@ != #[trigger] s[j].id@
}

/// The position of the module with identifier `id` in `s` (meaningful when
/// `holds_id(s, id)`).
pub open spec fn index_of_id<S>(s: Seq<Module<S>>, id: Seq<char>) -> int {
    choose|i: int| 0 <= i < s.len() && #[trigger] s[i].id@ == id
}

/// The module of `s` with identifier `id`, if there is one.
pub open spec fn lookup<S>(s: Seq<Module<S>>, id: Seq<char>) -> Option<Module<S>> {
    if holds_id(s, id) {
        Some(s[index_of_id(s, id)])
    } else {
        None
    }
}

/// `s` after storing `m` under its identifier: it takes the place of the
/// module with that identifier, or is added after the others.
pub open spec fn stored<S>(s: Seq<Module<S>>, m: Module<S>) -> Seq<Module<S>> {
    if holds_id(s, m.id@) {
        s.update(index_of_id(s, m.id@), m)
    } else {
        s.push(m)
    }
}

/// `s` without the module with identifier `id`.
pub open spec fn without_id<S>(s: Seq<Module<S>>, id: Seq<char>) -> Seq<Module<S>> {
    if holds_id(s, id) {
        s.remove(index_of_id(s, id))
    } else {
        s
    }
}

/// Whether `m` has the name `name`.
pub open spec fn has_name<S>(m: Module<S>, name: Seq<char>) -> bool {
    m.name@ == name
}

/// The modules of `s` named `name`, in order.
pub open spec fn named<S>(s: Seq<Module<S>>, name: Seq<char>) -> Seq<Module<S>> {
    s.filter(|m: Module<S>| has_name(m, name))
}

/// The modules of `s` not named `name`, in order.
pub open spec fn not_named<S>(s: Seq<Module<S>>, name: Seq<char>) -> Seq<Module<S>> {
    s.filter(|m: Module<S>| !has_name(m, name))
}

/// The metadata of a module: its name, version and identifier.
pub open spec fn metadata_matches<S>(md: PackageMetadata, m: Module<S>) -> bool {
    &&& md.Name@ == m.name@
    &&& md.Version@ == m.ver@
    &&& md.ID@ == m.id@
}

/// The metadata of `m`.
pub fn metadata_of<S>(m: &Module<S>) -> (md: PackageMetadata)
    ensures
        metadata_matches(md, *m),
{
    PackageMetadata { Name: m.name.clone(), Version: m.ver.clone(), ID: m.id.clone() }
}

/// The first module of `s` named `name`, if there is one.
pub open spec fn first_named<S>(s: Seq<Module<S>>, name: Seq<char>) -> Option<Module<S>>
    decreases s.len(),
{
    if s.len() == 0 {
        None
    } else if s[0].name@ == name {
        Some(s[0])
    } else {
        first_named(s.drop_first(), name)
    }
}

/// The position of the first module of `registry` named `name`, if there is
/// one.
pub fn first_named_position<S>(registry: &Registry<S>, name: &String) -> (r: Option<usize>)
    ensures
        match r {
            Some(i) => i < registry.entries().len() && first_named(registry.entries(), name@) == Some(
                registry.entries()[i as int],
            ),
            None => first_named(registry.entries(), name@) is None,
        },
{
    let ghost s = registry.entries();
    let mut i: usize = 0;
    assert(s.skip(0) == s);
    while i < registry.len()
        invariant
            i <= s.len(),
            s == registry.entries(),
            first_named(s, name@) == first_named(s.skip(i as int), name@),
        decreases s.len() - i,
    {
        let m = registry.at(i);
        assert(s.skip(i as int)[0] == s[i as int]);
        if m.name == *name {
            return Some(i);
        }
        assert(s.skip(i as int).drop_first() == s.skip(i + 1));
        i = i + 1;
    }
    None
}

/// The first module of `registry` named `name`, if there is one.
pub fn get_by_name<'a, S>(registry: &'a Registry<S>, name: &String) -> (r: Option<&'a Module<S>>)
    ensures
        match r {
            Some(m) => first_named(registry.entries(), name@) == Some(*m),
            None => first_named(registry.entries(), name@) is None,
        },
{
    match first_named_position(registry, name) {
        Some(i) => Some(registry.at(i)),
        None => None,
    }
}

/// The registry of stored packages, in the order they were first stored.
pub struct Registry<S> {
    entries: Vec<Module<S>>,
}

impl<S> Registry<S> {
    #[verifier::type_invariant]
    pub(crate) closed spec fn inv(self) -> bool {
        ids_unique(self.entries@)
    }

    /// The stored modules, in the order they were first stored.
    pub closed spec fn entries(&self) -> Seq<Module<S>> {
        self.entries@
    }

    /// The invariant of a registry says that its identifiers are unique.
    pub(crate) proof fn lemma_inv_unique(&self)
        requires
            self.inv(),
        ensures
            ids_unique(self.entries()),
    {
    }

    /// An empty registry.
    pub fn new() -> (r: Self)
        ensures
            r.entries() == Seq::<Module<S>>::empty(),
            ids_unique(r.entries()),
    {
        Registry { entries: Vec::new() }
    }

    /// The number of stored modules; no two of them share an identifier.
    pub fn len(&self) -> (n: usize)
        ensures
            n == self.entries().len(),
            ids_unique(self.entries()),
    {
        proof {
            use_type_invariant(self);
        }
        self.entries.len()
    }

    /// The stored module at position `i`.
    pub fn at(&self, i: usize) -> (m: &Module<S>)
        requires
            i < self.entries().len(),
        ensures
            *m == self.entries()[i as int],
    {
        &self.entries[i]
    }

    /// The position of the module with identifier `id`, if there is one.
    fn find(&self, id: &String) -> (r: Option<usize>)
        ensures
            r is None <==> !holds_id(self.entries(), id@),
            r matches Some(i) ==> i < self.entries().len() && i == index_of_id(
                self.entries(),
                id@,
            ) && self.entries()[i as int].id@ == id@,
    {
        proof {
            use_type_invariant(self);
        }
        let mut i: usize = 0;
        while i < self.entries.len()
            invariant
                i <= self.entries@.len(),
                ids_unique(self.entries@),
                forall|j: int| 0 <= j < i ==> #[trigger] self.entries@[j].id@ != id@,
            decreases self.entries@.len() - i,
        {
            if self.entries[i].id == *id {
                assert(self.entries@[i as int].id@ == id@);
                assert(holds_id(self.entries@, id@));
                let ghost k = index_of_id(self.entries@, id@);
                assert(self.entries@[k].id@ == id@);
                assert(k == i);
                return Some(i);
            }
            i = i + 1;
        }
        None
    }

    /// Whether a module with identifier `id` is stored.
    pub fn contains(&self, id: &String) -> (b: bool)
        ensures
            b == holds_id(self.entries(), id@),
    {
        self.find(id).is_some()
    }

    /// The stored module with identifier `id`, if there is one.
    pub fn get(&self, id: &String) -> (r: Option<&Module<S>>)
        ensures
            ids_unique(self.entries()),
            match r {
                Some(m) => lookup(self.entries(), id@) == Some(*m),
                None => lookup(self.entries(), id@) is None,
            },
    {
        proof {
            use_type_invariant(self);
        }
        match self.find(id) {
            Some(i) => Some(&self.entries[i]),
            None => None,
        }
    }

    /// Stores `m` under its identifier, in place of the module stored under
    /// it before, if any.
    pub fn insert(&mut self, m: Module<S>)
        ensures
            final(self).entries() == stored(old(self).entries(), m),
            ids_unique(old(self).entries()),
            ids_unique(final(self).entries()),
    {
        proof {
            use_type_invariant(&*self);
        }
        match self.find(&m.id) {
            Some(i) => {
                let ghost s = self.entries@;
                let mut entries: Vec<Module<S>> = Vec::new();
                std::mem::swap(&mut entries, &mut self.entries);
                entries.set(i, m);
                assert(ids_unique(entries@)) by {
                    assert forall|a: int, b: int|
                        0 <= a < entries@.len() && 0 <= b < entries@.len() && a != b implies #[trigger] entries@[a].id@
                        != #[trigger] entries@[b].id@ by {
                        if a != i && b != i {
                            assert(s[a].id@ != s[b].id@);
                        } else if a == i {
                            assert(s[b].id@ != s[i as int].id@);
                        } else {
                            assert(s[a].id@ != s[i as int].id@);
                        }
                    }
                }
                self.entries = entries;
            },
            None => {
                let ghost s = self.entries@;
                let mut entries: Vec<Module<S>> = Vec::new();
                std::mem::swap(&mut entries, &mut self.entries);
                entries.push(m);
                assert(ids_unique(entries@)) by {
                    assert forall|a: int, b: int|
                        0 <= a < entries@.len() && 0 <= b < entries@.len() && a != b implies #[trigger] entries@[a].id@
                        != #[trigger] entries@[b].id@ by {
                        if a < s.len() && b < s.len() {
                            assert(s[a].id@ != s[b].id@);
                        } else if a == s.len() {
                            assert(s[b].id@ != m.id@);
                        } else {
                            assert(s[a].id@ != m.id@);
                        }
                    }
                }
                self.entries = entries;
            },
        }
    }

    /// Removes the module with identifier `id`, and returns it.
    pub fn remove(&mut self, id: &String) -> (r: Option<Module<S>>)
        ensures
            r == lookup(old(self).entries(), id@),
            final(self).entries() == without_id(old(self).entries(), id@),
            ids_unique(old(self).entries()),
            ids_unique(final(self).entries()),
    {
        proof {
            use_type_invariant(&*self);
        }
        match self.find(id) {
            Some(i) => {
                let ghost s = self.entries@;
                let mut entries: Vec<Module<S>> = Vec::new();
                std::mem::swap(&mut entries, &mut self.entries);
                let m = entries.remove(i);
                assert(ids_unique(entries@)) by {
                    assert forall|a: int, b: int|
                        0 <= a < entries@.len() && 0 <= b < entries@.len() && a != b implies #[trigger] entries@[a].id@
                        != #[trigger] entries@[b].id@ by {
                        let a2 = if a < i { a } else { a + 1 };
                        let b2 = if b < i { b } else { b + 1 };
                        assert(entries@[a] == s[a2]);
                        assert(entries@[b] == s[b2]);
                        assert(s[a2].id@ != s[b2].id@);
                    }
                }
                self.entries = entries;
                Some(m)
            },
            None => None,
        }
    }

    /// Removes the modules named `name`, keeping the others in order, and
    /// returns the removed modules in order.
    pub fn remove_named(&mut self, name: &String) -> (removed: Vec<Module<S>>)
        ensures
            removed@ == named(old(self).entries(), name@),
            final(self).entries() == not_named(old(self).entries(), name@),
            ids_unique(old(self).entries()),
            ids_unique(final(self).entries()),
    {
        proof {
            use_type_invariant(&*self);
        }
        let ghost orig = self.entries@;
        let mut rest: Vec<Module<S>> = Vec::new();
        std::mem::swap(&mut rest, &mut self.entries);
        let mut kept: Vec<Module<S>> = Vec::new();
        let mut removed: Vec<Module<S>> = Vec::new();
        let ghost mut k: int = 0;
        assert(orig.take(0) == Seq::<Module<S>>::empty());
        assert(orig.skip(0) == orig);
        while rest.len() > 0
            invariant
                0 <= k <= orig.len(),
                ids_unique(orig),
                rest@ == orig.skip(k),
                kept@ == not_named(orig.take(k), name@),
                removed@ == named(orig.take(k), name@),
                ids_unique(kept@),
                forall|a: int|
                    0 <= a < kept@.len() ==> exists|j: int|
                        0 <= j < k && #[trigger] kept@[a] == #[trigger] orig[j],
            decreases rest@.len(),
        {
            let m = rest.remove(0);
            proof {
                assert(m == orig[k]);
                assert(orig.take(k + 1) == orig.take(k).push(orig[k]));
                orig.take(k).lemma_filter_push(orig[k], |m: Module<S>| !has_name(m, name@));
                orig.take(k).lemma_filter_push(orig[k], |m: Module<S>| has_name(m, name@));
                assert(orig.skip(k).drop_first() == orig.skip(k + 1));
            }
            if m.name == *name {
                removed.push(m);
            } else {
                let ghost before = kept@;
                kept.push(m);
                proof {
                    assert forall|a: int, b: int|
                        0 <= a < kept@.len() && 0 <= b < kept@.len() && a != b implies #[trigger] kept@[a].id@
                        != #[trigger] kept@[b].id@ by {
                        if a < before.len() && b < before.len() {
                            assert(before[a].id@ != before[b].id@);
                        } else if a == before.len() {
                            let j = choose|j: int| 0 <= j < k && #[trigger] before[b] == #[trigger] orig[j];
                            assert(orig[j].id@ != orig[k].id@);
                        } else {
                            let j = choose|j: int| 0 <= j < k && #[trigger] before[a] == #[trigger] orig[j];
                            assert(orig[j].id@ != orig[k].id@);
                        }
                    }
                    assert forall|a: int| 0 <= a < kept@.len() implies exists|j: int|
                        0 <= j < k + 1 && #[trigger] kept@[a] == #[trigger] orig[j] by {
                        if a == before.len() {
                            assert(kept@[a] == orig[k]);
                        } else {
                            let j = choose|j: int| 0 <= j < k && #[trigger] before[a] == #[trigger] orig[j];
                            assert(kept@[a] == orig[j]);
                        }
                    }
                }
            }
            proof {
                k = k + 1;
            }
        }
        assert(orig.take(k) == orig);
        self.entries = kept;
        removed
    }

    /// Removes every module, and returns them in order.
    pub fn drain_all(&mut self) -> (all: Vec<Module<S>>)
        ensures
            all@ == old(self).entries(),
            final(self).entries() == Seq::<Module<S>>::empty(),
            ids_unique(old(self).entries()),
    {
        proof {
            use_type_invariant(&*self);
        }
        let mut all: Vec<Module<S>> = Vec::new();
        std::mem::swap(&mut all, &mut self.entries);
        all
    }
}

} // verus!

verus! {

/// The module at position `i` of a sequence with unique identifiers is the
/// one found under its identifier.
pub proof fn lemma_lookup_at<S>(s: Seq<Module<S>>, i: int)
    requires
        ids_unique(s),
        0 <= i < s.len(),
    ensures
        lookup(s, s[i].id@) == Some(s[i]),
        index_of_id(s, s[i].id@) == i,
{
    assert(holds_id(s, s[i].id@));
    let k = index_of_id(s, s[i].id@);
    assert(s[k].id@ == s[i].id@);
}

/// Keeping some of the modules of a sequence with unique identifiers keeps
/// the identifiers unique, and keeps only modules of the sequence.
pub proof fn lemma_filter_unique<S>(s: Seq<Module<S>>, p: spec_fn(Module<S>) -> bool)
    requires
        ids_unique(s),
    ensures
        ids_unique(s.filter(p)),
        forall|m: Module<S>| #[trigger] s.filter(p).contains(m) ==> s.contains(m) && p(m),
    decreases s.len(),
{
    reveal(Seq::filter);
    if s.len() > 0 {
        let rest = s.drop_last();
        assert(ids_unique(rest)) by {
            assert forall|a: int, b: int|
                0 <= a < rest.len() && 0 <= b < rest.len() && a != b implies #[trigger] rest[a].id@
                != #[trigger] rest[b].id@ by {
                assert(s[a].id@ != s[b].id@);
            }
        }
        lemma_filter_unique(rest, p);
        let f = rest.filter(p);
        assert(s.filter(p) == if p(s.last()) {
            f.push(s.last())
        } else {
            f
        });
        if p(s.last()) {
            let g = f.push(s.last());
            assert forall|a: int, b: int|
                0 <= a < g.len() && 0 <= b < g.len() && a != b implies #[trigger] g[a].id@
                != #[trigger] g[b].id@ by {
                if a < f.len() && b < f.len() {
                    assert(f[a].id@ != f[b].id@);
                } else {
                    let x = if a < f.len() {
                        a
                    } else {
                        b
                    };
                    assert(f.contains(f[x]));
                    assert(rest.contains(f[x]));
                    let j = choose|j: int| 0 <= j < rest.len() && rest[j] == f[x];
                    assert(s[j].id@ != s[s.len() - 1].id@);
                }
            }
            assert forall|m: Module<S>| #[trigger] g.contains(m) implies s.contains(m) && p(m) by {
                if m != s.last() {
                    let j = choose|j: int| 0 <= j < g.len() && g[j] == m;
                    assert(f.contains(m));
                    assert(rest.contains(m));
                    let r = choose|r: int| 0 <= r < rest.len() && rest[r] == m;
                    assert(s[r] == m);
                } else {
                    assert(s[s.len() - 1] == m);
                }
            }
        } else {
            assert forall|m: Module<S>| #[trigger] f.contains(m) implies s.contains(m) && p(m) by {
                assert(rest.contains(m));
                let r = choose|r: int| 0 <= r < rest.len() && rest[r] == m;
                assert(s[r] == m);
            }
        }
    }
}

/// Storing a module makes it the module found under its identifier and keeps
/// identifiers unique.
pub proof fn law_store_then_lookup<S>(s: Seq<Module<S>>, m: Module<S>)
    requires
        ids_unique(s),
    ensures
        lookup(stored(s, m), m.id@) == Some(m),
        ids_unique(stored(s, m)),
{
    let t = stored(s, m);
    if holds_id(s, m.id@) {
        let i = index_of_id(s, m.id@);
        assert forall|a: int, b: int|
            0 <= a < t.len() && 0 <= b < t.len() && a != b implies #[trigger] t[a].id@
            != #[trigger] t[b].id@ by {
            if a != i && b != i {
                assert(s[a].id@ != s[b].id@);
            } else if a == i {
                assert(s[b].id@ != s[i].id@);
            } else {
                assert(s[a].id@ != s[i].id@);
            }
        }
        lemma_lookup_at(t, i);
    } else {
        assert forall|a: int, b: int|
            0 <= a < t.len() && 0 <= b < t.len() && a != b implies #[trigger] t[a].id@
            != #[trigger] t[b].id@ by {
            if a < s.len() && b < s.len() {
                assert(s[a].id@ != s[b].id@);
            }
        }
        lemma_lookup_at(t, s.len() as int);
    }
}

/// Storing a module leaves what is found under every other identifier as it
/// was.
pub proof fn law_store_keeps_others<S>(s: Seq<Module<S>>, m: Module<S>, other: Seq<char>)
    requires
        ids_unique(s),
        other != m.id@,
    ensures
        lookup(stored(s, m), other) == lookup(s, other),
{
    law_store_then_lookup(s, m);
    let t = stored(s, m);
    if holds_id(s, other) {
        let i = index_of_id(s, other);
        lemma_lookup_at(s, i);
        assert(t[i] == s[i]);
        lemma_lookup_at(t, i);
    } else {
        if holds_id(t, other) {
            let j = index_of_id(t, other);
            if j < s.len() {
                assert(t[j] == s[j]);
            }
        }
    }
}

/// After removing an identifier nothing is found under it, and identifiers
/// stay unique.
pub proof fn law_remove_leaves_none<S>(s: Seq<Module<S>>, id: Seq<char>)
    requires
        ids_unique(s),
    ensures
        lookup(without_id(s, id), id) is None,
        ids_unique(without_id(s, id)),
{
    let t = without_id(s, id);
    if holds_id(s, id) {
        let i = index_of_id(s, id);
        assert forall|a: int, b: int|
            0 <= a < t.len() && 0 <= b < t.len() && a != b implies #[trigger] t[a].id@
            != #[trigger] t[b].id@ by {
            let a2 = if a < i {
                a
            } else {
                a + 1
            };
            let b2 = if b < i {
                b
            } else {
                b + 1
            };
            assert(t[a] == s[a2]);
            assert(t[b] == s[b2]);
            assert(s[a2].id@ != s[b2].id@);
        }
        if holds_id(t, id) {
            let j = index_of_id(t, id);
            let j2 = if j < i {
                j
            } else {
                j + 1
            };
            assert(t[j] == s[j2]);
            assert(s[j2].id@ != s[i].id@);
        }
    }
}

/// After removing an identifier nothing is found under it, and what is found
/// under every other identifier is as it was.
pub proof fn law_remove_then_lookup<S>(s: Seq<Module<S>>, id: Seq<char>, other: Seq<char>)
    requires
        ids_unique(s),
        other != id,
    ensures
        lookup(without_id(s, id), id) is None,
        lookup(without_id(s, id), other) == lookup(s, other),
        ids_unique(without_id(s, id)),
{
    law_remove_leaves_none(s, id);
    let t = without_id(s, id);
    if holds_id(s, id) {
        let i = index_of_id(s, id);
        if holds_id(s, other) {
            let k = index_of_id(s, other);
            lemma_lookup_at(s, k);
            let k2 = if k < i {
                k
            } else {
                k - 1
            };
            assert(t[k2] == s[k]);
            lemma_lookup_at(t, k2);
        } else if holds_id(t, other) {
            let j = index_of_id(t, other);
            let j2 = if j < i {
                j
            } else {
                j + 1
            };
            assert(t[j] == s[j2]);
        }
    }
}

/// Deleting by name leaves no module with that name; a module with another
/// name is found under its identifier as before, and one with that name is
/// no longer found.
pub proof fn law_remove_named<S>(s: Seq<Module<S>>, name: Seq<char>, id: Seq<char>)
    requires
        ids_unique(s),
    ensures
        forall|i: int|
            0 <= i < not_named(s, name).len() ==> (#[trigger] not_named(s, name)[i]).name@ != name,
        forall|i: int| 0 <= i < named(s, name).len() ==> (#[trigger] named(s, name)[i]).name@ == name,
        ids_unique(not_named(s, name)),
        match lookup(s, id) {
            Some(m) => if m.name@ == name {
                lookup(not_named(s, name), id) is None
            } else {
                lookup(not_named(s, name), id) == Some(m)
            },
            None => lookup(not_named(s, name), id) is None,
        },
{
    let p = |m: Module<S>| !has_name(m, name);
    let q = |m: Module<S>| has_name(m, name);
    lemma_filter_unique(s, p);
    lemma_filter_unique(s, q);
    let t = not_named(s, name);
    assert forall|i: int| 0 <= i < t.len() implies (#[trigger] t[i]).name@ != name by {
        assert(t.contains(t[i]));
    }
    assert forall|i: int|
        0 <= i < named(s, name).len() implies (#[trigger] named(s, name)[i]).name@ == name by {
        assert(named(s, name).contains(named(s, name)[i]));
    }
    if holds_id(t, id) {
        let j = index_of_id(t, id);
        assert(t.contains(t[j]));
        assert(s.contains(t[j]));
        let k = choose|k: int| 0 <= k < s.len() && s[k] == t[j];
        lemma_lookup_at(s, k);
        lemma_lookup_at(t, j);
    }
    match lookup(s, id) {
        Some(m) => {
            let k = index_of_id(s, id);
            if m.name@ != name {
                s.lemma_filter_contains(p, k);
                let j = choose|j: int| 0 <= j < t.len() && t[j] == s[k];
                lemma_lookup_at(t, j);
            }
        },
        None => {},
    }
}

} // verus!
