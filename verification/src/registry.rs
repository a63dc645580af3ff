//! The registry store: a mapping from name to value handle, with
//! insert-or-overwrite publish and full-snapshot read.

use vstd::prelude::*;

verus! {

/// Some publish in the sequence carries `name`.
pub open spec fn has_name<V>(pubs: Seq<(Seq<char>, V)>, name: Seq<char>) -> bool {
    exists|i: int| 0 <= i < pubs.len() && pubs[i].0 == name
}

/// No two publishes in the sequence carry the same name.
pub open spec fn distinct_names<V>(pubs: Seq<(Seq<char>, V)>) -> bool {
    forall|i: int, j: int| 0 <= i < j < pubs.len() ==> pubs[i].0 != pubs[j].0
}

/// The map that a sequence of publishes leaves behind when applied to `m`,
/// in order: each publish inserts or overwrites its name.
pub open spec fn apply_publishes<V>(m: Map<Seq<char>, V>, pubs: Seq<(Seq<char>, V)>) -> Map<
    Seq<char>,
    V,
>
    decreases pubs.len(),
{
    if pubs.len() == 0 {
        m
    } else {
        apply_publishes(m, pubs.drop_last()).insert(pubs.last().0, pubs.last().1)
    }
}

/// A name appears in the final map exactly when it was published or was
/// already present; a name never published keeps its prior binding.
pub proof fn lemma_unpublished_name_unchanged<V>(
    m: Map<Seq<char>, V>,
    pubs: Seq<(Seq<char>, V)>,
    name: Seq<char>,
)
    requires
        !has_name(pubs, name),
    ensures
        apply_publishes(m, pubs).contains_key(name) == m.contains_key(name),
        m.contains_key(name) ==> apply_publishes(m, pubs)[name] == m[name],
    decreases pubs.len(),
{
    if pubs.len() > 0 {
        assert(!has_name(pubs.drop_last(), name)) by {
            assert(forall|i: int|
                0 <= i < pubs.drop_last().len() ==> pubs.drop_last()[i] == pubs[i]);
        }
        lemma_unpublished_name_unchanged(m, pubs.drop_last(), name);
        assert(pubs.last().0 != name) by {
            assert(pubs[pubs.len() - 1] == pubs.last());
        }
    }
}

/// Law: the most recent publish for a name wins. If the publish at position
/// `i` is the last one carrying its name, the final map binds that name to
/// exactly that publish's handle.
pub proof fn lemma_last_publish_wins<V>(
    m: Map<Seq<char>, V>,
    pubs: Seq<(Seq<char>, V)>,
    i: int,
)
    requires
        0 <= i < pubs.len(),
        forall|j: int| i < j < pubs.len() ==> pubs[j].0 != pubs[i].0,
    ensures
        apply_publishes(m, pubs).contains_key(pubs[i].0),
        apply_publishes(m, pubs)[pubs[i].0] == pubs[i].1,
    decreases pubs.len(),
{
    if i == pubs.len() - 1 {
        assert(pubs.last() == pubs[i]);
    } else {
        assert(pubs.drop_last()[i] == pubs[i]);
        assert(forall|j: int|
            i < j < pubs.drop_last().len() ==> pubs.drop_last()[j] == pubs[j]);
        lemma_last_publish_wins(m, pubs.drop_last(), i);
        assert(pubs.last() == pubs[pubs.len() - 1]);
        assert(pubs.last().0 != pubs[i].0);
    }
}

/// Every published name is in the final map's domain; with
/// `lemma_unpublished_name_unchanged`, the names a sequence of publishes
/// adds to the domain are exactly the published ones.
pub proof fn lemma_published_names_dom<V>(
    m: Map<Seq<char>, V>,
    pubs: Seq<(Seq<char>, V)>,
    name: Seq<char>,
)
    requires
        has_name(pubs, name),
    ensures
        apply_publishes(m, pubs).contains_key(name),
{
    let i = choose|i: int| 0 <= i < pubs.len() && pubs[i].0 == name;
    let j = last_index_of_name(pubs, name, i);
    lemma_last_publish_wins(m, pubs, j);
}

/// The largest index at or after `i` whose publish carries `name`.
proof fn last_index_of_name<V>(pubs: Seq<(Seq<char>, V)>, name: Seq<char>, i: int) -> (j: int)
    requires
        0 <= i < pubs.len(),
        pubs[i].0 == name,
    ensures
        i <= j < pubs.len(),
        pubs[j].0 == name,
        forall|k: int| j < k < pubs.len() ==> pubs[k].0 != name,
    decreases pubs.len() - i,
{
    if exists|k: int| i < k < pubs.len() && pubs[k].0 == name {
        let k = choose|k: int| i < k < pubs.len() && pubs[k].0 == name;
        last_index_of_name(pubs, name, k)
    } else {
        i
    }
}

/// Law: no publish is lost. Publishes with pairwise distinct names, applied
/// to an empty registry, leave exactly one entry for each publish: the map
/// holds `pubs.len()` entries, one per name, each bound to its handle. Any
/// interleaving of concurrent publishers whose names are all distinct is
/// such a sequence, whatever order the exclusive lock serialized them in.
pub proof fn lemma_distinct_publishes_all_kept<V>(pubs: Seq<(Seq<char>, V)>)
    requires
        distinct_names(pubs),
    ensures
        apply_publishes(Map::<Seq<char>, V>::empty(), pubs).dom().finite(),
        apply_publishes(Map::<Seq<char>, V>::empty(), pubs).len() == pubs.len(),
        forall|i: int|
            0 <= i < pubs.len() ==> apply_publishes(Map::<Seq<char>, V>::empty(), pubs)[
                #[trigger] pubs[i].0
            ] == pubs[i].1,
    decreases pubs.len(),
{
    let empty = Map::<Seq<char>, V>::empty();
    if pubs.len() > 0 {
        let prefix = pubs.drop_last();
        assert(forall|i: int| 0 <= i < prefix.len() ==> prefix[i] == pubs[i]);
        lemma_distinct_publishes_all_kept::<V>(prefix);
        assert(!has_name(prefix, pubs.last().0)) by {
            assert(pubs.last() == pubs[pubs.len() - 1]);
        }
        lemma_unpublished_name_unchanged(empty, prefix, pubs.last().0);
        assert(!apply_publishes(empty, prefix).contains_key(pubs.last().0));
        assert forall|i: int| 0 <= i < pubs.len() implies apply_publishes(empty, pubs)[
            #[trigger] pubs[i].0
        ] == pubs[i].1 by {
            assert(forall|j: int| i < j < pubs.len() ==> pubs[j].0 != pubs[i].0);
            lemma_last_publish_wins(empty, pubs, i);
        }
    }
}

/// The snapshot `s` lists exactly the entries of the map `m`: every listed
/// pair is a binding of `m`, no name is listed twice, and every binding is
/// listed (by count).
pub open spec fn snapshot_matches<V>(s: Seq<(String, V)>, m: Map<Seq<char>, V>) -> bool {
    &&& m.dom().finite()
    &&& s.len() == m.len()
    &&& forall|i: int|
        0 <= i < s.len() ==> m.contains_key(#[trigger] s[i].0@) && m[s[i].0@] == s[i].1
    &&& forall|i: int, j: int| 0 <= i < j < s.len() ==> s[i].0@ != s[j].0@
}

/// The registry store: a map from name to value handle.
///
/// The handles are not owned by the registry in any deeper sense than the
/// type `V` itself carries: a caller that wants the registry and its
/// consumers to share long-lived values instantiates `V` with a shared,
/// copyable handle (for example a reference of static lifetime).
pub struct Registry<V> {
    vars: Vec<(String, V)>,
}

impl<V> Registry<V> {
    /// The stored entries, as (name, handle) pairs.
    closed spec fn entries(&self) -> Seq<(Seq<char>, V)> {
        self.vars@.map_values(|p: (String, V)| (p.0@, p.1))
    }

    /// Names are unique: publishing an existing name overwrote its entry.
    pub closed spec fn wf(&self) -> bool {
        distinct_names(self.entries())
    }

    /// An empty registry.
    pub fn new() -> (r: Registry<V>)
        ensures
            r.wf(),
            r@ == Map::<Seq<char>, V>::empty(),
    {
        let r = Registry { vars: Vec::new() };
        proof {
            assert(r.entries() =~= Seq::<(Seq<char>, V)>::empty());
        }
        r
    }

    /// The position of `name` among the stored entries, if present.
    fn find_index(&self, name: &String) -> (r: Option<usize>)
        ensures
            match r {
                Some(i) => i < self.entries().len() && self.entries()[i as int].0 == name@,
                None => !has_name(self.entries(), name@),
            },
    {
        let mut i: usize = 0;
        while i < self.vars.len()
            invariant
                i <= self.vars@.len(),
                forall|j: int| 0 <= j < i ==> self.entries()[j].0 != name@,
            decreases self.vars@.len() - i,
        {
            if self.vars[i].0 == *name {
                proof {
                    assert(self.entries()[i as int].0 == name@);
                }
                return Some(i);
            }
            proof {
                assert(self.entries()[i as int].0 == self.vars@[i as int].0@);
            }
            i = i + 1;
        }
        None
    }

    /// Inserts or overwrites the entry for `name`: the last writer wins,
    /// and no other entry is touched.
    pub fn publish(&mut self, name: String, var: V)
        requires
            old(self).wf(),
        ensures
            final(self).wf(),
            final(self)@ == old(self)@.insert(name@, var),
    {
        match self.find_index(&name) {
            Some(i) => {
                let ghost before = self.entries();
                self.vars[i] = (name, var);
                proof {
                    assert(self.entries() =~= before.update(
                        i as int,
                        (before[i as int].0, var),
                    ));
                    lemma_apply_update(before, i as int, var);
                }
            },
            None => {
                let ghost before = self.entries();
                self.vars.push((name, var));
                proof {
                    assert(self.entries() =~= before.push((name@, var)));
                    assert(self.entries().drop_last() =~= before);
                    assert(distinct_names(self.entries())) by {
                        assert(forall|j: int|
                            0 <= j < before.len() ==> self.entries()[j] == before[j]);
                    }
                }
            },
        }
    }

}

impl<V: Copy> Registry<V> {
    /// A consistent point-in-time copy of every (name, handle) pair. The
    /// copy is the caller's own: later publishes do not change it, and
    /// changing it does not touch the registry.
    pub fn snapshot(&self) -> (r: Vec<(String, V)>)
        requires
            self.wf(),
        ensures
            snapshot_matches(r@, self@),
    {
        let mut out: Vec<(String, V)> = Vec::new();
        let mut i: usize = 0;
        while i < self.vars.len()
            invariant
                i <= self.vars@.len(),
                out@.len() == i,
                forall|j: int|
                    0 <= j < i ==> (#[trigger] out@[j]).0@ == self.entries()[j].0 && out@[j].1
                        == self.entries()[j].1,
            decreases self.vars@.len() - i,
        {
            let nm = self.vars[i].0.clone();
            let handle = self.vars[i].1;
            out.push((nm, handle));
            proof {
                assert(self.entries()[i as int] == (self.vars@[i as int].0@, self.vars@[
                    i as int
                ].1));
            }
            i = i + 1;
        }
        proof {
            lemma_distinct_publishes_all_kept(self.entries());
            assert forall|j: int| 0 <= j < out@.len() implies self@.contains_key(
                #[trigger] out@[j].0@,
            ) && self@[out@[j].0@] == out@[j].1 by {
                assert(forall|k: int|
                    j < k < self.entries().len() ==> self.entries()[k].0 != self.entries()[j].0);
                lemma_last_publish_wins(Map::<Seq<char>, V>::empty(), self.entries(), j);
            }
            assert(forall|a: int, b: int|
                0 <= a < b < out@.len() ==> (#[trigger] out@[a]).0@ != (#[trigger] out@[b]).0@);
        }
        out
    }
}

impl<V> View for Registry<V> {
    type V = Map<Seq<char>, V>;

    /// The registry as a map: the fold of its entries over the empty map.
    closed spec fn view(&self) -> Map<Seq<char>, V> {
        apply_publishes(Map::empty(), self.entries())
    }
}

/// Overwriting the entry at `i` in place, keeping its name, folds to the
/// same map as inserting the new handle under that name.
proof fn lemma_apply_update<V>(pubs: Seq<(Seq<char>, V)>, i: int, var: V)
    requires
        distinct_names(pubs),
        0 <= i < pubs.len(),
    ensures
        distinct_names(pubs.update(i, (pubs[i].0, var))),
        apply_publishes(Map::<Seq<char>, V>::empty(), pubs.update(i, (pubs[i].0, var)))
            == apply_publishes(Map::<Seq<char>, V>::empty(), pubs).insert(pubs[i].0, var),
    decreases pubs.len(),
{
    let empty = Map::<Seq<char>, V>::empty();
    let updated = pubs.update(i, (pubs[i].0, var));
    assert(distinct_names(updated)) by {
        assert(forall|j: int| 0 <= j < pubs.len() ==> updated[j].0 == pubs[j].0);
    }
    if i == pubs.len() - 1 {
        assert(updated.drop_last() =~= pubs.drop_last());
        assert(updated.last() == (pubs[i].0, var));
        assert(pubs.last() == pubs[i]);
        assert(apply_publishes(empty, updated) =~= apply_publishes(empty, pubs).insert(
            pubs[i].0,
            var,
        ));
    } else {
        let prefix = pubs.drop_last();
        assert(forall|j: int| 0 <= j < prefix.len() ==> prefix[j] == pubs[j]);
        lemma_apply_update(prefix, i, var);
        assert(updated.drop_last() =~= prefix.update(i, (prefix[i].0, var)));
        assert(updated.last() == pubs.last());
        assert(pubs.last() == pubs[pubs.len() - 1]);
        assert(pubs.last().0 != pubs[i].0);
        assert(apply_publishes(empty, updated) =~= apply_publishes(empty, pubs).insert(
            pubs[i].0,
            var,
        ));
    }
}

} // verus!
