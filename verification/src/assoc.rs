//! A small string-keyed table with at most one value per key.

use vstd::prelude::*;

verus! {

/// A table from strings to values. Keys are told apart by their characters;
/// the table keeps its keys in a fixed order of its own choosing.
#[derive(Debug)]
pub struct StrMap<V> {
    keys: Vec<String>,
    vals: Vec<V>,
}

/// A table as the list of its entries: each key of `order` with the value
/// that `m` binds it to.
pub open spec fn entries<V>(order: Seq<Seq<char>>, m: Map<Seq<char>, V>) -> Seq<(Seq<char>, V)> {
    Seq::new(order.len(), |i: int| (order[i], m[order[i]]))
}

/// A list of entries with each key taken as its characters.
pub open spec fn pairs<V>(list: Seq<(String, V)>) -> Seq<(Seq<char>, V)> {
    Seq::new(list.len(), |i: int| (list[i].0@, list[i].1))
}

/// The map that results from binding the entries of `list`, first to
/// last: a later entry replaces an earlier one of the same key.
pub open spec fn loaded<V>(list: Seq<(Seq<char>, V)>) -> Map<Seq<char>, V>
    decreases list.len(),
{
    if list.len() == 0 {
        Map::empty()
    } else {
        loaded(list.drop_last()).insert(list.last().0, list.last().1)
    }
}

impl<V> StrMap<V> {
    /// Keys and values stand side by side, and no key occurs twice.
    pub closed spec fn wf(&self) -> bool {
        &&& self.keys@.len() == self.vals@.len()
        &&& forall|i: int, j: int|
            0 <= i < j < self.keys@.len() ==> (#[trigger] self.keys@[i])@ != (#[trigger] self.keys@[j])@
    }

    /// The keys, as character sequences, in the order the table walks them.
    pub closed spec fn order(&self) -> Seq<Seq<char>> {
        Seq::new(self.keys@.len(), |i: int| self.keys@[i]@)
    }

    /// The table as a map from key to value.
    pub closed spec fn view(&self) -> Map<Seq<char>, V> {
        Map::new(
            |k: Seq<char>| self.order().contains(k),
            |k: Seq<char>| self.vals@[self.order().index_of(k)],
        )
    }

    /// The walking order lists every key of the map exactly once.
    pub proof fn lemma_order(&self)
        requires
            self.wf(),
        ensures
            self.order().no_duplicates(),
            self.order().to_set() == self@.dom(),
            self.order().len() == self@.dom().len(),
            self@.dom().finite(),
    {
        let o = self.order();
        assert(o.no_duplicates()) by {
            assert forall|i: int, j: int| 0 <= i < o.len() && 0 <= j < o.len() && i != j implies o[i] != o[j] by {
                if i < j {
                    assert(self.keys@[i]@ != self.keys@[j]@);
                } else {
                    assert(self.keys@[j]@ != self.keys@[i]@);
                }
            }
        }
        assert(o.to_set() =~= self@.dom());
        o.unique_seq_to_set();
    }

    proof fn lemma_at(&self, i: int)
        requires
            self.wf(),
            0 <= i < self.keys@.len(),
        ensures
            self@.contains_key(self.keys@[i]@),
            self@[self.keys@[i]@] == self.vals@[i],
            self.order()[i] == self.keys@[i]@,
    {
        let o = self.order();
        let k = self.keys@[i]@;
        assert(o[i] == k);
        assert(o.contains(k));
        let j = o.index_of(k);
        assert(0 <= j < o.len() && o[j] == k);
        if j != i {
            if j < i {
                assert(self.keys@[j]@ != self.keys@[i]@);
            } else {
                assert(self.keys@[i]@ != self.keys@[j]@);
            }
        }
    }

    proof fn lemma_absent(&self, k: Seq<char>)
        requires
            forall|i: int| 0 <= i < self.keys@.len() ==> (#[trigger] self.keys@[i])@ != k,
        ensures
            !self@.contains_key(k),
    {
        let o = self.order();
        if o.contains(k) {
            let j = o.index_of(k);
            assert(o[j] == k);
            assert(self.keys@[j]@ == k);
        }
    }

    /// An empty table.
    pub fn new() -> (r: Self)
        ensures
            r.wf(),
            r@ == Map::<Seq<char>, V>::empty(),
            r.order() == Seq::<Seq<char>>::empty(),
    {
        let r = StrMap { keys: Vec::new(), vals: Vec::new() };
        proof {
            assert(r.order() =~= Seq::<Seq<char>>::empty());
            assert(r@ =~= Map::<Seq<char>, V>::empty());
        }
        r
    }

    /// The table that results from binding the entries of `list`, first to
    /// last.
    pub fn from_entries(list: Vec<(String, V)>) -> (r: Self)
        ensures
            r.wf(),
            r@ == loaded(pairs(list@)),
    {
        let mut out = StrMap::new();
        let ghost all = list@;
        for entry in it: list
            invariant
                out.wf(),
                it.seq() == all,
                out@ == loaded(pairs(all.take(it.index() as int))),
        {
            proof {
                let grown = pairs(all.take(it.index() + 1));
                assert(grown.drop_last() =~= pairs(all.take(it.index() as int)));
                assert(grown.last() == (entry.0@, entry.1));
            }
            out.insert(entry.0, entry.1);
        }
        proof {
            assert(all.take(all.len() as int) =~= all);
        }
        out
    }

    /// The number of keys.
    pub fn len(&self) -> (n: usize)
        requires
            self.wf(),
        ensures
            n == self.order().len(),
            n == self@.dom().len(),
    {
        proof {
            self.lemma_order();
        }
        self.keys.len()
    }

    /// The place of `key` in the walking order, if the table holds it.
    pub fn position(&self, key: &str) -> (r: Option<usize>)
        requires
            self.wf(),
        ensures
            match r {
                Some(i) => i < self.order().len() && self.order()[i as int] == key@
                    && self@.contains_key(key@),
                None => !self@.contains_key(key@),
            },
    {
        let wanted = key.to_owned();
        let mut i: usize = 0;
        while i < self.keys.len()
            invariant
                self.wf(),
                wanted@ == key@,
                i <= self.keys@.len(),
                forall|j: int| 0 <= j < i ==> (#[trigger] self.keys@[j])@ != key@,
            decreases self.keys@.len() - i,
        {
            if self.keys[i] == wanted {
                proof {
                    self.lemma_at(i as int);
                }
                return Some(i);
            }
            i += 1;
        }
        proof {
            self.lemma_absent(key@);
        }
        None
    }
    proof fn lemma_model(&self)
        requires
            self.wf(),
        ensures
            self.order().len() == self.keys@.len(),
            forall|i: int|
                0 <= i < self.keys@.len() ==> self@.contains_key((#[trigger] self.keys@[i])@)
                    && self@[self.keys@[i]@] == self.vals@[i] && self.order()[i] == self.keys@[i]@,
            forall|k: Seq<char>| #[trigger]
                self@.contains_key(k) ==> exists|i: int|
                    0 <= i < self.keys@.len() && (#[trigger] self.keys@[i])@ == k,
    {
        assert forall|i: int| 0 <= i < self.keys@.len() implies self@.contains_key(
            (#[trigger] self.keys@[i])@,
        ) && self@[self.keys@[i]@] == self.vals@[i] && self.order()[i] == self.keys@[i]@ by {
            self.lemma_at(i);
        }
        assert forall|k: Seq<char>| #[trigger] self@.contains_key(k) implies exists|i: int|
            0 <= i < self.keys@.len() && (#[trigger] self.keys@[i])@ == k by {
            let j = self.order().index_of(k);
            assert(self.order()[j] == k);
            assert(self.keys@[j]@ == k);
        }
    }

    /// Binds `key` to `val`, replacing what `key` was bound to. A key that the
    /// table held keeps its place; a new one goes to the end.
    pub fn insert(&mut self, key: String, val: V)
        requires
            old(self).wf(),
        ensures
            final(self).wf(),
            final(self)@ == old(self)@.insert(key@, val),
            final(self).order() == if old(self)@.contains_key(key@) {
                old(self).order()
            } else {
                old(self).order().push(key@)
            },
    {
        let found = self.position(key.as_str());
        let ghost before = *self;
        proof {
            before.lemma_model();
        }
        match found {
            Some(i) => {
                self.vals.set(i, val);
                proof {
                    assert(self.keys@ == before.keys@);
                    assert(self.wf());
                    self.lemma_model();
                    assert(self.order() =~= before.order());
                    assert forall|k: Seq<char>| self@.contains_key(k) <==> before@.insert(
                        key@,
                        val,
                    ).contains_key(k) by {}
                    assert forall|k: Seq<char>| self@.contains_key(k) implies self@[k]
                        == before@.insert(key@, val)[k] by {
                        let j = choose|j: int|
                            0 <= j < self.keys@.len() && (#[trigger] self.keys@[j])@ == k;
                        assert(before.keys@[j]@ == k);
                    }
                    assert(self@ =~= before@.insert(key@, val));
                }
            },
            None => {
                self.keys.push(key);
                self.vals.push(val);
                proof {
                    let n = before.keys@.len() as int;
                    assert forall|i: int, j: int| 0 <= i < j < self.keys@.len() implies (
                    #[trigger] self.keys@[i])@ != (#[trigger] self.keys@[j])@ by {
                        if j < n {
                            assert(before.keys@[i]@ != before.keys@[j]@);
                        } else {
                            assert(before.keys@[i]@ != key@);
                        }
                    }
                    assert(self.wf());
                    self.lemma_model();
                    assert(self.order() =~= before.order().push(key@));
                    assert(self.keys@[n]@ == key@);
                    assert forall|k: Seq<char>| self@.contains_key(k) <==> before@.insert(
                        key@,
                        val,
                    ).contains_key(k) by {
                        if self@.contains_key(k) {
                            let j = choose|j: int|
                                0 <= j < self.keys@.len() && (#[trigger] self.keys@[j])@ == k;
                            if j < n {
                                assert(before.keys@[j]@ == k);
                            }
                        }
                        if before@.contains_key(k) {
                            let j = choose|j: int|
                                0 <= j < before.keys@.len() && (#[trigger] before.keys@[j])@ == k;
                            assert(self.keys@[j]@ == k);
                        }
                    }
                    assert forall|k: Seq<char>| self@.contains_key(k) implies self@[k]
                        == before@.insert(key@, val)[k] by {
                        let j = choose|j: int|
                            0 <= j < self.keys@.len() && (#[trigger] self.keys@[j])@ == k;
                        if j < n {
                            assert(before.keys@[j]@ == k);
                        }
                    }
                    assert(self@ =~= before@.insert(key@, val));
                }
            },
        }
    }

    /// The value bound to `key`, if any.
    pub fn get(&self, key: &str) -> (r: Option<&V>)
        requires
            self.wf(),
        ensures
            match r {
                Some(v) => self@.contains_key(key@) && *v == self@[key@],
                None => !self@.contains_key(key@),
            },
    {
        match self.position(key) {
            Some(i) => {
                proof {
                    self.lemma_model();
                    assert(self.keys@[i as int]@ == key@);
                }
                Some(&self.vals[i])
            },
            None => None,
        }
    }

    /// Unbinds `key` and hands back what it was bound to. The other keys keep
    /// their order.
    pub fn remove(&mut self, key: &str) -> (r: Option<V>)
        requires
            old(self).wf(),
        ensures
            final(self).wf(),
            final(self)@ == old(self)@.remove(key@),
            r == if old(self)@.contains_key(key@) {
                Some(old(self)@[key@])
            } else {
                None
            },
            final(self).order() == if old(self)@.contains_key(key@) {
                old(self).order().remove(old(self).order().index_of(key@))
            } else {
                old(self).order()
            },
    {
        let found = self.position(key);
        let ghost before = *self;
        proof {
            before.lemma_model();
            before.lemma_order();
        }
        match found {
            Some(i) => {
                let _gone = self.keys.remove(i);
                let v = self.vals.remove(i);
                proof {
                    let n = before.keys@.len() as int;
                    let at = i as int;
                    assert(before.keys@[at]@ == key@);
                    assert(before.order().index_of(key@) == at) by {
                        let w = before.order().index_of(key@);
                        assert(before.order()[w] == key@);
                        assert(before.order()[at] == key@);
                    }
                    assert forall|a: int, b: int| 0 <= a < b < self.keys@.len() implies (
                    #[trigger] self.keys@[a])@ != (#[trigger] self.keys@[b])@ by {
                        let a0 = if a < at { a } else { a + 1 };
                        let b0 = if b < at { b } else { b + 1 };
                        assert(before.keys@[a0]@ != before.keys@[b0]@);
                    }
                    assert(self.wf());
                    self.lemma_model();
                    assert(self.order() =~= before.order().remove(at));
                    assert forall|k: Seq<char>| self@.contains_key(k) <==> before@.remove(
                        key@,
                    ).contains_key(k) by {
                        if self@.contains_key(k) {
                            let j = choose|j: int|
                                0 <= j < self.keys@.len() && (#[trigger] self.keys@[j])@ == k;
                            let j0 = if j < at { j } else { j + 1 };
                            assert(before.keys@[j0]@ == k);
                            if j0 < at {
                                assert(before.keys@[j0]@ != before.keys@[at]@);
                            } else {
                                assert(before.keys@[at]@ != before.keys@[j0]@);
                            }
                        }
                        if before@.contains_key(k) && k != key@ {
                            let j = choose|j: int|
                                0 <= j < before.keys@.len() && (#[trigger] before.keys@[j])@ == k;
                            let j1 = if j < at { j } else { j - 1 };
                            assert(self.keys@[j1]@ == k);
                        }
                    }
                    assert forall|k: Seq<char>| self@.contains_key(k) implies self@[k]
                        == before@.remove(key@)[k] by {
                        let j = choose|j: int|
                            0 <= j < self.keys@.len() && (#[trigger] self.keys@[j])@ == k;
                        let j0 = if j < at { j } else { j + 1 };
                        assert(before.keys@[j0]@ == k);
                    }
                    assert(self@ =~= before@.remove(key@));
                }
                Some(v)
            },
            None => {
                proof {
                    assert(self@ =~= before@.remove(key@));
                }
                None
            },
        }
    }

    /// The key at place `i` of the walking order.
    pub fn key_at(&self, i: usize) -> (k: &String)
        requires
            self.wf(),
            i < self.order().len(),
        ensures
            k@ == self.order()[i as int],
            self@.contains_key(k@),
    {
        proof {
            self.lemma_model();
        }
        &self.keys[i]
    }

    /// The value bound to the key at place `i` of the walking order.
    pub fn value_at(&self, i: usize) -> (v: &V)
        requires
            self.wf(),
            i < self.order().len(),
        ensures
            self@.contains_key(self.order()[i as int]),
            *v == self@[self.order()[i as int]],
    {
        proof {
            self.lemma_model();
        }
        &self.vals[i]
    }
    /// The keys, each once, in walking order.
    pub fn keys(&self) -> (r: Vec<&String>)
        requires
            self.wf(),
        ensures
            r@.len() == self.order().len(),
            forall|i: int| 0 <= i < r@.len() ==> (#[trigger] r@[i])@ == self.order()[i],
    {
        let n = self.len();
        let mut out: Vec<&String> = Vec::new();
        let mut i: usize = 0;
        while i < n
            invariant
                self.wf(),
                n == self.order().len(),
                i <= n,
                out@.len() == i,
                forall|j: int| 0 <= j < i ==> (#[trigger] out@[j])@ == self.order()[j],
            decreases n - i,
        {
            out.push(self.key_at(i));
            i += 1;
        }
        out
    }

    /// The entries, each key with its value, in walking order.
    pub fn iter(&self) -> (r: Vec<(&String, &V)>)
        requires
            self.wf(),
        ensures
            r@.len() == self.order().len(),
            forall|i: int|
                0 <= i < r@.len() ==> ((#[trigger] r@[i]).0@, *r@[i].1) == entries(
                    self.order(),
                    self@,
                )[i],
    {
        let n = self.len();
        let mut out: Vec<(&String, &V)> = Vec::new();
        let mut i: usize = 0;
        while i < n
            invariant
                self.wf(),
                n == self.order().len(),
                i <= n,
                out@.len() == i,
                forall|j: int|
                    0 <= j < i ==> ((#[trigger] out@[j]).0@, *out@[j].1) == entries(
                        self.order(),
                        self@,
                    )[j],
            decreases n - i,
        {
            out.push((self.key_at(i), self.value_at(i)));
            i += 1;
        }
        out
    }
}

} // verus!
