use vstd::prelude::*;

verus! {

/// A map from string keys to values, kept as two parallel vectors.
pub struct Keyed<V> {
    keys: Vec<String>,
    vals: Vec<V>,
    contents: Ghost<Map<Seq<char>, V>>,
}

impl<V> View for Keyed<V> {
    type V = Map<Seq<char>, V>;

    closed spec fn view(&self) -> Map<Seq<char>, V> {
        self.contents@
    }
}

impl<V> Keyed<V> {
    /// Keys are distinct, and the vectors hold exactly the entries of the map.
    pub closed spec fn wf(&self) -> bool {
        &&& self.keys@.len() == self.vals@.len()
        &&& forall|i: int, j: int|
            0 <= i < j < self.keys@.len() ==> self.keys@[i]@ != self.keys@[j]@
        &&& forall|i: int|
            0 <= i < self.keys@.len() ==> #[trigger] self.contents@.contains_key(self.keys@[i]@)
                && self.contents@[self.keys@[i]@] == self.vals@[i]
        &&& forall|k: Seq<char>|
            #[trigger] self.contents@.contains_key(k) ==> exists|i: int|
                0 <= i < self.keys@.len() && self.keys@[i]@ == k
    }

    pub closed spec fn size(&self) -> nat {
        self.keys@.len()
    }

    pub closed spec fn key_at(&self, i: int) -> Seq<char> {
        self.keys@[i]@
    }

    pub fn new() -> (r: Self)
        ensures
            r.wf(),
            r@ == Map::<Seq<char>, V>::empty(),
    {
        Keyed { keys: Vec::new(), vals: Vec::new(), contents: Ghost(Map::empty()) }
    }

    /// The position of `key`, if it is present.
    pub fn find(&self, key: &String) -> (r: Option<usize>)
        requires
            self.wf(),
        ensures
            match r {
                Some(i) => i < self.size() && self.key_at(i as int) == key@
                    && self@.contains_key(key@),
                None => !self@.contains_key(key@),
            },
    {
        let mut i: usize = 0;
        while i < self.keys.len()
            invariant
                self.wf(),
                i <= self.keys@.len(),
                forall|j: int| 0 <= j < i ==> self.keys@[j]@ != key@,
            decreases self.keys@.len() - i,
        {
            if self.keys[i] == *key {
                assert(self.contents@.contains_key(self.keys@[i as int]@));
                return Some(i);
            }
            i = i + 1;
        }
        None
    }

    pub fn value_at(&self, i: usize) -> (r: &V)
        requires
            self.wf(),
            i < self.size(),
        ensures
            self@.contains_key(self.key_at(i as int)),
            *r == self@[self.key_at(i as int)],
    {
        assert(self.contents@.contains_key(self.keys@[i as int]@));
        &self.vals[i]
    }

    pub fn insert_new(&mut self, key: String, v: V)
        requires
            old(self).wf(),
            !old(self)@.contains_key(key@),
        ensures
            final(self).wf(),
            final(self)@ == old(self)@.insert(key@, v),
    {
        let ghost k = key@;
        let ghost old_keys = self.keys@;
        proof {
            assert forall|i: int| 0 <= i < old_keys.len() implies old_keys[i]@ != k by {
                assert(self.contents@.contains_key(old_keys[i]@));
            }
        }
        self.keys.push(key);
        self.vals.push(v);
        self.contents = Ghost(self.contents@.insert(k, v));
        proof {
            assert forall|q: Seq<char>| #[trigger] self.contents@.contains_key(q) implies exists|i: int|
                0 <= i < self.keys@.len() && self.keys@[i]@ == q by {
                if q != k {
                    let i = choose|i: int| 0 <= i < old_keys.len() && old_keys[i]@ == q;
                    assert(self.keys@[i]@ == q);
                } else {
                    assert(self.keys@[old_keys.len() as int]@ == q);
                }
            }
        }
    }

    pub fn replace_at(&mut self, i: usize, v: V)
        requires
            old(self).wf(),
            i < old(self).size(),
        ensures
            final(self).wf(),
            final(self)@ == old(self)@.insert(old(self).key_at(i as int), v),
    {
        let ghost k = self.keys@[i as int]@;
        let ghost old_map = self.contents@;
        self.vals.set(i, v);
        self.contents = Ghost(self.contents@.insert(k, v));
        proof {
            assert forall|j: int| 0 <= j < self.keys@.len() implies #[trigger] self.contents@.contains_key(self.keys@[j]@)
                && self.contents@[self.keys@[j]@] == self.vals@[j] by {
                if j != i {
                    assert(self.keys@[j]@ != k);
                }
            }
            assert forall|q: Seq<char>| #[trigger] self.contents@.contains_key(q) implies exists|j: int|
                0 <= j < self.keys@.len() && self.keys@[j]@ == q by {
                if q == k {
                    assert(self.keys@[i as int]@ == q);
                } else {
                    assert(old_map.contains_key(q));
                }
            }
        }
    }

    pub fn remove_at(&mut self, i: usize)
        requires
            old(self).wf(),
            i < old(self).size(),
        ensures
            final(self).wf(),
            final(self)@ == old(self)@.remove(old(self).key_at(i as int)),
    {
        let ghost k = self.keys@[i as int]@;
        let ghost old_keys = self.keys@;
        let ghost old_vals = self.vals@;
        let ghost old_map = self.contents@;
        let _ = self.keys.remove(i);
        let _ = self.vals.remove(i);
        self.contents = Ghost(self.contents@.remove(k));
        proof {
            assert forall|j: int| 0 <= j < self.keys@.len() implies #[trigger] self.contents@.contains_key(self.keys@[j]@)
                && self.contents@[self.keys@[j]@] == self.vals@[j] by {
                if j < i {
                    assert(self.keys@[j] == old_keys[j]);
                    assert(old_keys[j]@ != k);
                    assert(old_map.contains_key(old_keys[j]@));
                } else {
                    assert(self.keys@[j] == old_keys[j + 1]);
                    assert(old_keys[j + 1]@ != k);
                    assert(old_map.contains_key(old_keys[j + 1]@));
                }
            }
            assert forall|q: Seq<char>| #[trigger] self.contents@.contains_key(q) implies exists|j: int|
                0 <= j < self.keys@.len() && self.keys@[j]@ == q by {
                assert(old_map.contains_key(q));
                let j = choose|j: int| 0 <= j < old_keys.len() && old_keys[j]@ == q;
                if j < i {
                    assert(self.keys@[j]@ == q);
                } else {
                    assert(j != i);
                    assert(self.keys@[j - 1]@ == q);
                }
            }
        }
    }
}

} // verus!
