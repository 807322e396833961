use vstd::prelude::*;

verus! {

/// Integer coordinate of a chunk in chunk space.
#[derive(Clone, Copy, Debug, PartialEq, Eq, Structural, Hash)]
pub struct ChunkCoord {
    pub x: i32,
    pub y: i32,
    pub z: i32,
}

pub(crate) proof fn lemma_push_contains(s: Seq<ChunkCoord>, a: ChunkCoord)
    ensures
        forall|q: ChunkCoord| #[trigger] s.push(a).contains(q) <==> s.contains(q) || q == a,
        !s.contains(a) && s.no_duplicates() ==> s.push(a).no_duplicates(),
{
    assert forall|q: ChunkCoord| #[trigger] s.push(a).contains(q) <==> s.contains(q) || q == a by {
        if s.contains(q) {
            let j = choose|j: int| 0 <= j < s.len() && s[j] == q;
            assert(s.push(a)[j] == q);
        }
        if q == a {
            assert(s.push(a)[s.len() as int] == q);
        }
        if s.push(a).contains(q) {
            let j = choose|j: int| 0 <= j < s.len() + 1 && s.push(a)[j] == q;
            if j < s.len() {
                assert(s[j] == q);
            }
        }
    }
    if !s.contains(a) && s.no_duplicates() {
        assert forall|i: int, j: int| 0 <= i < j < s.len() + 1 implies s.push(a)[i] != s.push(a)[j] by {
            if j == s.len() {
                assert(s[i] == s.push(a)[i]);
            }
        }
    }
}

/// A mapping from chunk coordinate to a value that keeps its keys in the
/// order they were first inserted.
pub struct CoordTable<V> {
    entries: Vec<(ChunkCoord, V)>,
}

impl<V> CoordTable<V> {
    pub closed spec fn entries(&self) -> Seq<(ChunkCoord, V)> {
        self.entries@
    }

    /// Keys in insertion order.
    pub open spec fn keys(&self) -> Seq<ChunkCoord> {
        self.entries().map_values(|e: (ChunkCoord, V)| e.0)
    }

    /// Every key occurs once.
    pub open spec fn wf(&self) -> bool {
        self.keys().no_duplicates()
    }

    pub open spec fn has(&self, k: ChunkCoord) -> bool {
        self.keys().contains(k)
    }

    pub open spec fn value_of(&self, k: ChunkCoord) -> V {
        self.entries()[self.keys().index_of(k)].1
    }

    pub open spec fn view(&self) -> Map<ChunkCoord, V> {
        Map::new(|k: ChunkCoord| self.has(k), |k: ChunkCoord| self.value_of(k))
    }

    proof fn lemma_entry(&self, i: int)
        requires
            self.wf(),
            0 <= i < self.entries().len(),
        ensures
            self@.contains_key(self.entries()[i].0),
            self@[self.entries()[i].0] == self.entries()[i].1,
            self.keys()[i] == self.entries()[i].0,
    {
        let k = self.entries()[i].0;
        assert(self.keys()[i] == k);
        let j = self.keys().index_of(k);
        assert(self.keys()[j] == k);
    }

    pub fn new() -> (r: Self)
        ensures
            r.wf(),
            r@ == Map::<ChunkCoord, V>::empty(),
            r.keys().len() == 0,
    {
        let r = CoordTable { entries: Vec::new() };
        assert(r@ =~= Map::<ChunkCoord, V>::empty());
        r
    }

    pub fn len(&self) -> (r: usize)
        ensures
            r == self.keys().len(),
    {
        self.entries.len()
    }

    /// The key at position `i` of the insertion order.
    pub fn key_at(&self, i: usize) -> (r: ChunkCoord)
        requires
            i < self.keys().len(),
        ensures
            r == self.keys()[i as int],
    {
        self.entries[i].0
    }

    /// Position of `k` in the insertion order, if present.
    pub fn find(&self, k: ChunkCoord) -> (r: Option<usize>)
        requires
            self.wf(),
        ensures
            r is None <==> !self@.contains_key(k),
            r matches Some(i) ==> i < self.keys().len() && self.keys()[i as int] == k,
    {
        let mut i: usize = 0;
        while i < self.entries.len()
            invariant
                i <= self.entries().len(),
                forall|j: int| 0 <= j < i ==> self.keys()[j] != k,
            decreases self.entries().len() - i,
        {
            if self.entries[i].0 == k {
                assert(self.keys()[i as int] == k);
                return Some(i);
            }
            i = i + 1;
        }
        None
    }

    pub fn contains_key(&self, k: ChunkCoord) -> (r: bool)
        requires
            self.wf(),
        ensures
            r == self@.contains_key(k),
    {
        self.find(k).is_some()
    }

    pub fn get(&self, k: ChunkCoord) -> (r: Option<&V>)
        requires
            self.wf(),
        ensures
            r is Some <==> self@.contains_key(k),
            r matches Some(v) ==> *v == self@[k],
    {
        match self.find(k) {
            None => None,
            Some(i) => {
                proof {
                    self.lemma_entry(i as int);
                }
                Some(&self.entries[i].1)
            },
        }
    }

    /// Sets the value of `k`; a new key goes last in the insertion order.
    pub fn insert(&mut self, k: ChunkCoord, v: V)
        requires
            old(self).wf(),
        ensures
            final(self).wf(),
            final(self)@ == old(self)@.insert(k, v),
            old(self)@.contains_key(k) ==> final(self).keys() == old(self).keys(),
            !old(self)@.contains_key(k) ==> final(self).keys() == old(self).keys().push(k),
    {
        let ghost pre = *self;
        match self.find(k) {
            Some(i) => {
                let _ = self.entries.remove(i);
                self.entries.insert(i, (k, v));
                assert(self.keys() =~= pre.keys());
                assert forall|j: int| 0 <= j < self.keys().len() && j != i implies self.entries()[j]
                    == pre.entries()[j] by {}
                assert(self@ =~= pre@.insert(k, v)) by {
                    assert forall|q: ChunkCoord| #[trigger] self@.contains_key(q) implies self@[q]
                        == pre@.insert(k, v)[q] by {
                        let j = self.keys().index_of(q);
                        self.lemma_entry(j);
                        if j != i {
                            pre.lemma_entry(j);
                        }
                    }
                    assert forall|q: ChunkCoord| #[trigger] pre@.insert(k, v).contains_key(q) implies self@.contains_key(q) by {
                        if q != k {
                            let j = pre.keys().index_of(q);
                            assert(self.keys()[j] == q);
                        }
                    }
                }
            },
            None => {
                self.entries.push((k, v));
                assert(self.keys() =~= pre.keys().push(k));
                assert(self@ =~= pre@.insert(k, v)) by {
                    assert forall|q: ChunkCoord| #[trigger] self@.contains_key(q) implies self@[q]
                        == pre@.insert(k, v)[q] by {
                        let j = self.keys().index_of(q);
                        self.lemma_entry(j);
                        if j < pre.keys().len() {
                            pre.lemma_entry(j);
                        }
                    }
                    assert forall|q: ChunkCoord| #[trigger] pre@.insert(k, v).contains_key(q) implies self@.contains_key(q) by {
                        if q != k {
                            let j = pre.keys().index_of(q);
                            assert(self.keys()[j] == q);
                        } else {
                            assert(self.keys()[pre.keys().len() as int] == q);
                        }
                    }
                }
            },
        }
    }

    /// Removes `k`, returning its value; the other keys keep their order.
    pub fn remove(&mut self, k: ChunkCoord) -> (r: Option<V>)
        requires
            old(self).wf(),
        ensures
            final(self).wf(),
            final(self)@ == old(self)@.remove(k),
            r is Some <==> old(self)@.contains_key(k),
            r matches Some(v) ==> v == old(self)@[k],
            forall|q: ChunkCoord| #[trigger] final(self).keys().contains(q) <==> old(self).keys().contains(q) && q != k,
    {
        let ghost pre = *self;
        match self.find(k) {
            None => {
                assert(self@ =~= pre@.remove(k));
                None
            },
            Some(i) => {
                proof {
                    pre.lemma_entry(i as int);
                }
                let e = self.entries.remove(i);
                assert(self.keys() =~= pre.keys().remove(i as int));
                assert forall|j: int| 0 <= j < self.keys().len() implies #[trigger] self.entries()[j]
                    == pre.entries()[if j < i { j } else { j + 1 }] by {}
                assert forall|q: ChunkCoord| #[trigger] self.keys().contains(q) <==> pre.keys().contains(q) && q != k by {
                    if pre.keys().contains(q) && q != k {
                        let j = pre.keys().index_of(q);
                        if j < i {
                            assert(self.keys()[j] == q);
                        } else {
                            assert(self.keys()[j - 1] == q);
                        }
                    }
                }
                assert(self@ =~= pre@.remove(k)) by {
                    assert forall|q: ChunkCoord| #[trigger] self@.contains_key(q) implies self@[q] == pre@[q] by {
                        let j = self.keys().index_of(q);
                        self.lemma_entry(j);
                        if j < i {
                            pre.lemma_entry(j);
                        } else {
                            pre.lemma_entry(j + 1);
                        }
                    }
                }
                Some(e.1)
            },
        }
    }
}

} // verus!
