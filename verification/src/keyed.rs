use vstd::prelude::*;

verus! {

/// The set of strings (as character sequences) named in `keys`.
pub open spec fn key_set(keys: Seq<String>) -> Set<Seq<char>> {
    Set::new(|k: Seq<char>| exists|i: int| 0 <= i < keys.len() && #[trigger] keys[i]@ == k)
}

/// A small map keyed by device UUID, holding each UUID at most once.
pub struct ByUuid<V> {
    entries: Vec<(String, V)>,
}

impl<V> ByUuid<V> {
    #[verifier::type_invariant]
    closed spec fn keys_unique(self) -> bool {
        forall|i: int, j: int|
            0 <= i < j < self.entries@.len() ==> #[trigger] self.entries@[i].0@
                != #[trigger] self.entries@[j].0@
    }

    closed spec fn has_key_at(self, k: Seq<char>, i: int) -> bool {
        0 <= i < self.entries@.len() && self.entries@[i].0@ == k
    }

    /// The map from UUID to value.
    pub closed spec fn view(&self) -> Map<Seq<char>, V> {
        Map::new(
            |k: Seq<char>| exists|i: int| self.has_key_at(k, i),
            |k: Seq<char>| self.entries@[choose|i: int| self.has_key_at(k, i)].1,
        )
    }

    proof fn lemma_at(&self, i: int)
        requires
            0 <= i < self.entries@.len(),
            self.keys_unique(),
        ensures
            self@.contains_key(self.entries@[i].0@),
            self@[self.entries@[i].0@] == self.entries@[i].1,
    {
        let k = self.entries@[i].0@;
        assert(self.has_key_at(k, i));
        let j = choose|j: int| self.has_key_at(k, j);
        assert(self.has_key_at(k, j));
        if i < j {
            assert(self.entries@[i].0@ != self.entries@[j].0@);
        } else if j < i {
            assert(self.entries@[j].0@ != self.entries@[i].0@);
        }
    }

    proof fn lemma_dom(&self)
        requires
            self.keys_unique(),
        ensures
            self@.dom() == self.entries@.map_values(|e: (String, V)| e.0@).to_set(),
            self@.dom().finite(),
            self@.dom().len() == self.entries@.len(),
    {
        let ks = self.entries@.map_values(|e: (String, V)| e.0@);
        assert forall|k: Seq<char>| self@.dom().contains(k) <==> ks.to_set().contains(k) by {
            if self@.dom().contains(k) {
                let i = choose|i: int| self.has_key_at(k, i);
                assert(ks[i] == k);
            }
            if ks.to_set().contains(k) {
                let i = choose|i: int| 0 <= i < ks.len() && ks[i] == k;
                assert(self.has_key_at(k, i));
            }
        }
        assert(self@.dom() =~= ks.to_set());
        assert(ks.no_duplicates()) by {
            assert forall|i: int, j: int| 0 <= i < ks.len() && 0 <= j < ks.len() && i != j implies ks[i]
                != ks[j] by {
                if i < j {
                    assert(self.entries@[i].0@ != self.entries@[j].0@);
                } else {
                    assert(self.entries@[j].0@ != self.entries@[i].0@);
                }
            }
        }
        ks.unique_seq_to_set();
    }

    /// An empty map.
    pub fn new() -> (r: Self)
        ensures
            r@ == Map::<Seq<char>, V>::empty(),
    {
        let r = ByUuid { entries: Vec::new() };
        assert(r@ =~= Map::<Seq<char>, V>::empty());
        r
    }

    /// The number of UUIDs held.
    pub fn len(&self) -> (r: usize)
        ensures
            self@.dom().finite(),
            r == self@.dom().len(),
    {
        proof {
            use_type_invariant(self);
            self.lemma_dom();
        }
        self.entries.len()
    }

    fn find(&self, k: &String) -> (r: Option<usize>)
        ensures
            match r {
                Some(i) => self.has_key_at(k@, i as int),
                None => !self@.contains_key(k@),
            },
    {
        let n = self.entries.len();
        let mut i: usize = 0;
        while i < n
            invariant
                n == self.entries@.len(),
                0 <= i <= n,
                forall|j: int| 0 <= j < i ==> self.entries@[j].0@ != k@,
            decreases n - i,
        {
            if self.entries[i].0 == *k {
                return Some(i);
            }
            i = i + 1;
        }
        None
    }

    /// The value held for `k`, if any.
    pub fn get(&self, k: &String) -> (r: Option<&V>)
        ensures
            match r {
                Some(v) => self@.contains_key(k@) && *v == self@[k@],
                None => !self@.contains_key(k@),
            },
    {
        proof {
            use_type_invariant(self);
        }
        match self.find(k) {
            Some(i) => {
                proof {
                    self.lemma_at(i as int);
                }
                Some(&self.entries[i].1)
            },
            None => None,
        }
    }

    /// Removes `k` and returns its value, if it was held.
    pub fn remove(&mut self, k: &String) -> (r: Option<V>)
        ensures
            final(self)@ == old(self)@.remove(k@),
            r == (if old(self)@.contains_key(k@) {
                Some(old(self)@[k@])
            } else {
                None
            }),
    {
        proof {
            use_type_invariant(&*self);
        }
        match self.find(k) {
            Some(i) => {
                let ghost before = *self;
                proof {
                    before.lemma_at(i as int);
                }
                let mut es: Vec<(String, V)> = Vec::new();
                std::mem::swap(&mut es, &mut self.entries);
                let e = es.swap_remove(i);
                self.entries = es;
                proof {
                    let s = before.entries@;
                    let t = self.entries@;
                    assert(t =~= s.update(i as int, s.last()).drop_last());
                    assert forall|kk: Seq<char>| #![auto]
                        self@.contains_key(kk) <==> before@.remove(k@).contains_key(kk) by {
                        if self@.contains_key(kk) {
                            let j = choose|j: int| self.has_key_at(kk, j);
                            if j == i {
                                assert(before.has_key_at(kk, s.len() - 1));
                            } else {
                                assert(before.has_key_at(kk, j));
                            }
                        }
                        if before@.remove(k@).contains_key(kk) {
                            let j = choose|j: int| before.has_key_at(kk, j);
                            if j == s.len() - 1 {
                                assert(self.has_key_at(kk, i as int));
                            } else {
                                assert(self.has_key_at(kk, j));
                            }
                        }
                    }
                    assert forall|kk: Seq<char>| #![auto]
                        self@.contains_key(kk) implies self@[kk] == before@[kk] by {
                        let j = choose|j: int| self.has_key_at(kk, j);
                        self.lemma_at(j);
                        if j == i {
                            before.lemma_at(s.len() - 1);
                        } else {
                            before.lemma_at(j);
                        }
                    }
                    assert(self@ =~= before@.remove(k@));
                }
                Some(e.1)
            },
            None => {
                assert(self@ =~= old(self)@.remove(k@));
                None
            },
        }
    }

    /// Sets the value held for `k`.
    pub fn insert(&mut self, k: String, v: V)
        ensures
            final(self)@ == old(self)@.insert(k@, v),
    {
        let _ = self.remove(&k);
        let ghost before = *self;
        proof {
            use_type_invariant(&*self);
        }
        let mut es: Vec<(String, V)> = Vec::new();
        std::mem::swap(&mut es, &mut self.entries);
        proof {
            assert(es@ == before.entries@);
            assert(!before@.contains_key(k@));
            assert forall|j: int| 0 <= j < es@.len() implies es@[j].0@ != k@ by {
                if es@[j].0@ == k@ {
                    assert(before.has_key_at(k@, j));
                    assert(before@.contains_key(k@));
                }
            }
        }
        es.push((k, v));
        self.entries = es;
        proof {
            let s = before.entries@;
            let n = s.len() as int;
            assert forall|kk: Seq<char>| #![auto]
                self@.contains_key(kk) <==> before@.insert(k@, v).contains_key(kk) by {
                if self@.contains_key(kk) {
                    let j = choose|j: int| self.has_key_at(kk, j);
                    if j < n {
                        assert(before.has_key_at(kk, j));
                    }
                }
                if before@.contains_key(kk) {
                    let j = choose|j: int| before.has_key_at(kk, j);
                    assert(self.has_key_at(kk, j));
                }
                if kk == k@ {
                    assert(self.has_key_at(kk, n));
                }
            }
            assert forall|kk: Seq<char>| #![auto]
                self@.contains_key(kk) implies self@[kk] == before@.insert(k@, v)[kk] by {
                let j = choose|j: int| self.has_key_at(kk, j);
                self.lemma_at(j);
                if j < n {
                    before.lemma_at(j);
                }
            }
            assert(self@ =~= before@.insert(k@, v));
        }
    }

    /// Keeps only the UUIDs named in `keep`.
    pub fn retain_keys(&mut self, keep: &Vec<String>)
        ensures
            final(self)@ == old(self)@.restrict(key_set(keep@)),
    {
        proof {
            use_type_invariant(&*self);
        }
        let ghost orig = *self;
        let n = self.entries.len();
        let mut ks: Vec<String> = Vec::new();
        let mut i: usize = 0;
        while i < n
            invariant
                n == orig.entries@.len(),
                *self == orig,
                0 <= i <= n,
                ks@.len() == i,
                forall|j: int| 0 <= j < i ==> #[trigger] ks@[j]@ == orig.entries@[j].0@,
            decreases n - i,
        {
            ks.push(self.entries[i].0.clone());
            i = i + 1;
        }
        let keep_set = Ghost(key_set(keep@));
        let mut i: usize = 0;
        while i < n
            invariant
                n == orig.entries@.len(),
                ks@.len() == n,
                forall|j: int| 0 <= j < n ==> #[trigger] ks@[j]@ == orig.entries@[j].0@,
                keep_set@ == key_set(keep@),
                0 <= i <= n,
                forall|kk: Seq<char>|
                    #![trigger self@.contains_key(kk)]
                    self@.contains_key(kk) <==> (orig@.contains_key(kk) && !(!keep_set@.contains(kk)
                        && exists|j: int| 0 <= j < i && #[trigger] ks@[j]@ == kk)),
                forall|kk: Seq<char>|
                    #![trigger self@.contains_key(kk)]
                    self@.contains_key(kk) ==> self@[kk] == orig@[kk],
            decreases n - i,
        {
            let mut found = false;
            let mut j: usize = 0;
            while j < keep.len()
                invariant
                    i < n,
                    ks@.len() == n,
                    0 <= j <= keep@.len(),
                    found <==> exists|t: int| 0 <= t < j && #[trigger] keep@[t]@ == ks@[i as int]@,
                decreases keep.len() - j,
            {
                if keep[j] == ks[i] {
                    found = true;
                }
                j = j + 1;
            }
            let ghost prev = self@;
            if !found {
                let _ = self.remove(&ks[i]);
            }
            proof {
                let ki = ks@[i as int]@;
                assert(found <==> keep_set@.contains(ki));
                assert forall|kk: Seq<char>| #![auto]
                    self@.contains_key(kk) <==> (orig@.contains_key(kk) && !(!keep_set@.contains(kk)
                        && exists|t: int| 0 <= t < i + 1 && ks@[t]@ == kk)) by {
                    if exists|t: int| 0 <= t < i + 1 && ks@[t]@ == kk {
                        if !(exists|t: int| 0 <= t < i && ks@[t]@ == kk) {
                            assert(ks@[i as int]@ == kk);
                        }
                    }
                    if exists|t: int| 0 <= t < i && ks@[t]@ == kk {
                        let t = choose|t: int| 0 <= t < i && ks@[t]@ == kk;
                        assert(0 <= t < i + 1 && ks@[t]@ == kk);
                    }
                    if kk == ki {
                        assert(0 <= i < i + 1 && ks@[i as int]@ == kk);
                    }
                }
            }
            i = i + 1;
        }
        proof {
            assert forall|kk: Seq<char>| #![auto]
                self@.contains_key(kk) <==> orig@.restrict(keep_set@).contains_key(kk) by {
                if orig@.contains_key(kk) {
                    let t = choose|t: int| orig.has_key_at(kk, t);
                    assert(ks@[t]@ == kk);
                }
            }
            assert(self@ =~= orig@.restrict(keep_set@));
        }
    }
}

} // verus!
