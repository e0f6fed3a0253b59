//! A map with string keys that remembers the order in which its keys came.
use crate::text::text_eq;
use vstd::prelude::*;

verus! {

/// Values by name. No name occurs twice.
pub struct Registry<V> {
    entries: Vec<(String, V)>,
}

impl<V> View for Registry<V> {
    type V = Map<Seq<char>, V>;

    closed spec fn view(&self) -> Map<Seq<char>, V> {
        Map::new(
            |k: Seq<char>| exists|i: int| 0 <= i < self.entries@.len() && self.entries@[i].0@ == k,
            |k: Seq<char>| self.entries@[self.position(k)].1,
        )
    }
}

impl<V> Registry<V> {
    closed spec fn position(&self, k: Seq<char>) -> int {
        choose|i: int| 0 <= i < self.entries@.len() && self.entries@[i].0@ == k
    }

    /// No name occurs twice.
    pub closed spec fn wf(&self) -> bool {
        forall|i: int, j: int|
            0 <= i < j < self.entries@.len() ==> self.entries@[i].0@ != self.entries@[j].0@
    }

    proof fn lemma_entry(&self, i: int)
        requires
            self.wf(),
            0 <= i < self.entries@.len(),
        ensures
            self@.dom().contains(self.entries@[i].0@),
            self@[self.entries@[i].0@] == self.entries@[i].1,
    {
        let p = self.position(self.entries@[i].0@);
        assert(0 <= p < self.entries@.len() && self.entries@[p].0@ == self.entries@[i].0@);
        if p < i {
            assert(self.entries@[p].0@ != self.entries@[i].0@);
        }
        if i < p {
            assert(self.entries@[i].0@ != self.entries@[p].0@);
        }
    }

    /// A registry with nothing in it.
    pub fn new() -> (r: Registry<V>)
        ensures
            r.wf(),
            r@ == Map::<Seq<char>, V>::empty(),
    {
        let r = Registry { entries: Vec::new() };
        assert(r@ =~= Map::<Seq<char>, V>::empty());
        r
    }

    fn find(&self, name: &str) -> (r: Option<usize>)
        requires
            self.wf(),
        ensures
            match r {
                Some(i) => i < self.entries@.len() && self.entries@[i as int].0@ == name@
                    && self@.dom().contains(name@) && self@[name@] == self.entries@[i as int].1,
                None => !self@.dom().contains(name@) && forall|i: int|
                    0 <= i < self.entries@.len() ==> self.entries@[i].0@ != name@,
            },
    {
        let mut i: usize = 0;
        while i < self.entries.len()
            invariant
                self.wf(),
                i <= self.entries@.len(),
                forall|j: int| 0 <= j < i ==> self.entries@[j].0@ != name@,
            decreases self.entries@.len() - i,
        {
            if text_eq(self.entries[i].0.as_str(), name) {
                proof {
                    self.lemma_entry(i as int);
                }
                return Some(i);
            }
            i = i + 1;
        }
        None
    }

    /// The value that goes by `name`.
    pub fn get(&self, name: &str) -> (r: Option<&V>)
        requires
            self.wf(),
        ensures
            match r {
                Some(v) => self@.dom().contains(name@) && self@[name@] == *v,
                None => !self@.dom().contains(name@),
            },
    {
        match self.find(name) {
            Some(i) => Some(&self.entries[i].1),
            None => None,
        }
    }

    /// How many names there are.
    pub fn len(&self) -> (r: usize)
        requires
            self.wf(),
        ensures
            r == self.names().len(),
    {
        self.entries.len()
    }

    /// The names, in the order in which they came.
    pub closed spec fn names(&self) -> Seq<Seq<char>> {
        self.entries@.map_values(|e: (String, V)| e.0@)
    }

    /// The names are those of the map, each once.
    pub proof fn lemma_names(&self)
        requires
            self.wf(),
        ensures
            self.names().no_duplicates(),
            forall|k: Seq<char>| self.names().contains(k) <==> self@.dom().contains(k),
            forall|i: int| 0 <= i < self.names().len() ==> self@.dom().contains(#[trigger] self.names()[i]),
    {
        assert forall|k: Seq<char>| self@.dom().contains(k) implies self.names().contains(k) by {
            let p = self.position(k);
            assert(self.names()[p] == k);
        }
    }

    /// There are as many names as the map has.
    pub proof fn lemma_count(&self)
        requires
            self.wf(),
        ensures
            self@.dom().finite(),
            self@.dom().len() == self.names().len(),
    {
        self.lemma_names();
        self.names().unique_seq_to_set();
        assert(self.names().to_set() =~= self@.dom());
    }

    /// The name at position `i`.
    pub fn name_at(&self, i: usize) -> (r: &str)
        requires
            self.wf(),
            i < self.names().len(),
        ensures
            r@ == self.names()[i as int],
    {
        self.entries[i].0.as_str()
    }

    /// The value at position `i`.
    pub fn value_at(&self, i: usize) -> (r: &V)
        requires
            self.wf(),
            i < self.names().len(),
        ensures
            *r == self@[self.names()[i as int]],
    {
        proof {
            self.lemma_entry(i as int);
        }
        &self.entries[i].1
    }

    /// Takes `name` out and hands back what went by it.
    pub fn remove(&mut self, name: &str) -> (r: Option<V>)
        requires
            old(self).wf(),
        ensures
            final(self).wf(),
            final(self)@ == old(self)@.remove(name@),
            match r {
                Some(v) => old(self)@.dom().contains(name@) && old(self)@[name@] == v,
                None => !old(self)@.dom().contains(name@),
            },
    {
        match self.find(name) {
            Some(i) => {
                let ghost before = *self;
                let e = self.entries.remove(i);
                proof {
                    before.lemma_removed(*self, i as int);
                }
                Some(e.1)
            },
            None => {
                proof {
                    assert(self@.remove(name@) =~= self@);
                }
                None
            },
        }
    }

    proof fn lemma_removed(self, after: Registry<V>, i: int)
        requires
            self.wf(),
            0 <= i < self.entries@.len(),
            after.entries@ == self.entries@.remove(i),
        ensures
            after.wf(),
            after@ == self@.remove(self.entries@[i].0@),
    {
        let name = self.entries@[i].0@;
        assert forall|j: int| 0 <= j < after.entries@.len() implies after.entries@[j]
            == self.entries@[if j < i { j } else { j + 1 }] by {}
        assert(after.wf());
        assert forall|k: Seq<char>| after@.dom().contains(k) <==> #[trigger] self@.remove(name).dom().contains(k) by {
            if after@.dom().contains(k) {
                let p = after.position(k);
                let q = if p < i { p } else { p + 1 };
                assert(self.entries@[q].0@ == k);
            }
            if self@.remove(name).dom().contains(k) {
                let p = self.position(k);
                assert(p != i);
                let q = if p < i { p } else { p - 1 };
                assert(after.entries@[q].0@ == k);
            }
        }
        assert forall|k: Seq<char>| after@.dom().contains(k) implies #[trigger] after@[k] == self@.remove(name)[k] by {
            let p = after.position(k);
            after.lemma_entry(p);
            let q = if p < i { p } else { p + 1 };
            self.lemma_entry(q);
        }
        assert(after@ =~= self@.remove(name));
    }

    /// Puts `value` under `name`, in place of what went by it before.
    pub fn insert(&mut self, name: String, value: V)
        requires
            old(self).wf(),
        ensures
            final(self).wf(),
            final(self)@ == old(self)@.insert(name@, value),
    {
        let _ = self.remove(name.as_str());
        let ghost mid = *self;
        self.entries.push((name, value));
        proof {
            assert forall|i: int| 0 <= i < mid.entries@.len() implies self.entries@[i] == mid.entries@[i] by {}
            assert forall|i: int| 0 <= i < mid.entries@.len() implies mid.entries@[i].0@ != name@ by {
                mid.lemma_entry(i);
            }
            assert(self.wf());
            assert forall|k: Seq<char>| self@.dom().contains(k) <==> #[trigger] old(self)@.insert(name@, value).dom().contains(k) by {
                if self@.dom().contains(k) {
                    let p = self.position(k);
                    if p < mid.entries@.len() {
                        mid.lemma_entry(p);
                    }
                }
                if old(self)@.insert(name@, value).dom().contains(k) {
                    if k == name@ {
                        assert(self.entries@[mid.entries@.len() as int].0@ == k);
                    } else {
                        assert(mid@.dom().contains(k));
                        let p = mid.position(k);
                        assert(self.entries@[p].0@ == k);
                    }
                }
            }
            assert forall|k: Seq<char>| self@.dom().contains(k) implies #[trigger] self@[k] == old(self)@.insert(name@, value)[k] by {
                let p = self.position(k);
                self.lemma_entry(p);
                if p < mid.entries@.len() {
                    mid.lemma_entry(p);
                }
            }
            assert(self@ =~= old(self)@.insert(name@, value));
        }
    }

    /// Takes everything out and hands it back, in the order in which it came.
    pub fn drain(&mut self) -> (r: Vec<V>)
        requires
            old(self).wf(),
        ensures
            final(self).wf(),
            final(self)@ == Map::<Seq<char>, V>::empty(),
            r@.len() == old(self).names().len(),
            forall|i: int| 0 <= i < r@.len() ==> #[trigger] r@[i] == old(self)@[old(self).names()[i]],
    {
        let mut entries: Vec<(String, V)> = Vec::new();
        std::mem::swap(&mut entries, &mut self.entries);
        let ghost all = entries@;
        let mut r: Vec<V> = Vec::new();
        for e in it: entries
            invariant
                it.seq() == all,
                r@.len() == it.index(),
                forall|i: int| 0 <= i < r@.len() ==> #[trigger] r@[i] == all[i].1,
        {
            r.push(e.1);
        }
        proof {
            assert(self@ =~= Map::<Seq<char>, V>::empty());
            assert forall|i: int| 0 <= i < r@.len() implies #[trigger] r@[i] == old(self)@[old(self).names()[i]] by {
                old(self).lemma_entry(i);
            }
        }
        r
    }
}

/// Putting a value into a map and then modelling the values is putting in the modelled value.
pub proof fn lemma_insert_modelled<V, M>(
    m: Map<Seq<char>, V>,
    k: Seq<char>,
    v: V,
    f: spec_fn(V) -> M,
)
    ensures
        m.insert(k, v).map_values(f) == m.map_values(f).insert(k, f(v)),
{
    assert(m.insert(k, v).map_values(f) =~= m.map_values(f).insert(k, f(v)));
}

/// Taking a value out of a map and then modelling the values is taking out the modelled value.
pub proof fn lemma_remove_modelled<V, M>(m: Map<Seq<char>, V>, k: Seq<char>, f: spec_fn(V) -> M)
    ensures
        m.remove(k).map_values(f) == m.map_values(f).remove(k),
{
    assert(m.remove(k).map_values(f) =~= m.map_values(f).remove(k));
}

/// Whether a name is in both maps with the same value, or in neither.
pub open spec fn same_entry<V>(
    a: Map<Seq<char>, V>,
    b: Map<Seq<char>, V>,
    name: Seq<char>,
) -> bool {
    &&& a.dom().contains(name) <==> b.dom().contains(name)
    &&& a.dom().contains(name) ==> a[name] == b[name]
}

} // verus!
