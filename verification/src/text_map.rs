//! A map from text to values that keeps its keys in the order in which they were first inserted.

use vstd::prelude::*;

verus! {

/// A map from text to values, kept as a list of entries in which no key occurs twice.
pub struct TextMap<V> {
    entries: Vec<(String, V)>,
}

/// The keys of a list of entries, in order.
pub open spec fn keys_of<V>(entries: Seq<(String, V)>) -> Seq<Seq<char>> {
    entries.map_values(|e: (String, V)| e.0@)
}

/// The map that a list of entries stands for.
pub open spec fn map_of<V>(entries: Seq<(String, V)>) -> Map<Seq<char>, V> {
    Map::new(
        |k: Seq<char>| keys_of(entries).contains(k),
        |k: Seq<char>| entries[keys_of(entries).index_of(k)].1,
    )
}

/// A key's only position tells its value.
pub proof fn lemma_map_of_at<V>(entries: Seq<(String, V)>, i: int)
    requires
        keys_of(entries).no_duplicates(),
        0 <= i < entries.len(),
    ensures
        map_of(entries).contains_key(entries[i].0@),
        map_of(entries)[entries[i].0@] == entries[i].1,
{
    let k = entries[i].0@;
    assert(keys_of(entries)[i] == k);
    let j = keys_of(entries).index_of(k);
    assert(keys_of(entries)[j] == k);
}

impl<V> View for TextMap<V> {
    type V = Map<Seq<char>, V>;

    closed spec fn view(&self) -> Map<Seq<char>, V> {
        map_of(self.entries@)
    }
}

impl<V> TextMap<V> {
    /// No key occurs twice.
    pub closed spec fn wf(self) -> bool {
        keys_of(self.entries@).no_duplicates()
    }

    /// The keys, in the order in which they were first inserted.
    pub closed spec fn keys(self) -> Seq<Seq<char>> {
        keys_of(self.entries@)
    }

    /// The keys are those of the map, each once.
    pub proof fn lemma_keys(self)
        requires
            self.wf(),
        ensures
            self.keys().no_duplicates(),
            forall|k: Seq<char>| self@.contains_key(k) <==> #[trigger] self.keys().contains(k),
    {
    }

    /// The empty map.
    pub fn new() -> (r: Self)
        ensures
            r.wf(),
            r@ == Map::<Seq<char>, V>::empty(),
            r.keys() == Seq::<Seq<char>>::empty(),
    {
        let r = TextMap { entries: Vec::new() };
        proof {
            assert(keys_of(r.entries@) =~= Seq::empty());
            assert(map_of(r.entries@) =~= Map::empty());
        }
        r
    }

    /// The position of a key.
    fn position(&self, key: &str) -> (r: Option<usize>)
        ensures
            match r {
                Some(i) => i < self.entries@.len() && self.entries@[i as int].0@ == key@,
                None => !self@.contains_key(key@),
            },
    {
        let k = key.to_owned();
        let mut i: usize = 0;
        while i < self.entries.len()
            invariant
                k@ == key@,
                i <= self.entries@.len(),
                forall|j: int| 0 <= j < i ==> self.entries@[j].0@ != key@,
            decreases self.entries@.len() - i,
        {
            if self.entries[i].0 == k {
                return Some(i);
            }
            i = i + 1;
        }
        proof {
            if keys_of(self.entries@).contains(key@) {
                let j = choose|j: int|
                    0 <= j < keys_of(self.entries@).len() && keys_of(self.entries@)[j] == key@;
                assert(self.entries@[j].0@ == key@);
            }
        }
        None
    }

    /// The number of entries.
    pub fn len(&self) -> (r: usize)
        ensures
            r == self.keys().len(),
    {
        self.entries.len()
    }

    /// Whether there is no entry.
    pub fn is_empty(&self) -> (r: bool)
        ensures
            r == (self.keys().len() == 0),
    {
        self.entries.len() == 0
    }

    /// The key at a position.
    pub fn key_at(&self, i: usize) -> (r: &String)
        requires
            i < self.keys().len(),
        ensures
            r@ == self.keys()[i as int],
    {
        &self.entries[i].0
    }

    /// The value at a position.
    pub fn value_at(&self, i: usize) -> (r: &V)
        requires
            self.wf(),
            i < self.keys().len(),
        ensures
            self@.contains_key(self.keys()[i as int]),
            *r == self@[self.keys()[i as int]],
    {
        proof {
            lemma_map_of_at(self.entries@, i as int);
        }
        &self.entries[i].1
    }

    /// The value of a key.
    pub fn get(&self, key: &str) -> (r: Option<&V>)
        requires
            self.wf(),
        ensures
            match r {
                Some(v) => self@.contains_key(key@) && *v == self@[key@],
                None => !self@.contains_key(key@),
            },
    {
        match self.position(key) {
            Some(i) => {
                proof {
                    lemma_map_of_at(self.entries@, i as int);
                }
                Some(&self.entries[i].1)
            },
            None => None,
        }
    }

    /// Whether a key has a value.
    pub fn contains_key(&self, key: &str) -> (r: bool)
        requires
            self.wf(),
        ensures
            r == self@.contains_key(key@),
    {
        match self.position(key) {
            Some(i) => {
                proof {
                    lemma_map_of_at(self.entries@, i as int);
                }
                true
            },
            None => false,
        }
    }

    /// Gives a key a value; a key that has one keeps its place.
    pub fn insert(&mut self, key: String, value: V)
        requires
            old(self).wf(),
        ensures
            final(self).wf(),
            final(self)@ == old(self)@.insert(key@, value),
            final(self).keys() == if old(self)@.contains_key(key@) {
                old(self).keys()
            } else {
                old(self).keys().push(key@)
            },
    {
        let ghost k = key@;
        let ghost before = self.entries@;
        match self.position(key.as_str()) {
            Some(i) => {
                proof {
                    lemma_map_of_at(self.entries@, i as int);
                }
                self.entries.set(i, (key, value));
                proof {
                    assert(keys_of(self.entries@) =~= keys_of(before));
                    assert forall|q: Seq<char>| map_of(before).insert(k, value).contains_key(
                        q,
                    ) implies #[trigger] map_of(self.entries@)[q] == map_of(before).insert(
                        k,
                        value,
                    )[q] by {
                        let j = keys_of(before).index_of(q);
                        assert(keys_of(before)[j] == q);
                        assert(keys_of(before)[i as int] == k);
                    }
                    assert(map_of(self.entries@) =~= map_of(before).insert(k, value));
                }
            },
            None => {
                self.entries.push((key, value));
                proof {
                    let after = self.entries@;
                    assert(keys_of(after) =~= keys_of(before).push(k));
                    assert forall|q: Seq<char>| keys_of(after).contains(q) <==> (keys_of(
                        before,
                    ).contains(q) || q == k) by {
                        if keys_of(before).contains(q) {
                            let j = keys_of(before).index_of(q);
                            assert(keys_of(after)[j] == q);
                        }
                        assert(keys_of(after)[before.len() as int] == k);
                    }
                    assert forall|q: Seq<char>| map_of(before).insert(k, value).contains_key(
                        q,
                    ) implies #[trigger] map_of(after)[q] == map_of(before).insert(
                        k,
                        value,
                    )[q] by {
                        let j = keys_of(after).index_of(q);
                        assert(keys_of(after)[j] == q);
                        if q != k {
                            assert(keys_of(before).contains(q));
                            let m = keys_of(before).index_of(q);
                            assert(keys_of(before)[m] == q);
                            assert(keys_of(after)[m] == q);
                        }
                    }
                    assert(map_of(after) =~= map_of(before).insert(k, value));
                }
            },
        }
    }

    /// Takes a key and its value out.
    pub fn remove(&mut self, key: &str) -> (r: Option<V>)
        requires
            old(self).wf(),
        ensures
            final(self).wf(),
            final(self)@ == old(self)@.remove(key@),
            match r {
                Some(v) => old(self)@.contains_key(key@) && v == old(self)@[key@],
                None => !old(self)@.contains_key(key@),
            },
            final(self).keys() == old(self).keys().filter(|k: Seq<char>| k != key@),
    {
        let ghost before = self.entries@;
        let ghost keep = |k: Seq<char>| k != key@;
        match self.position(key) {
            Some(i) => {
                let e = self.entries.remove(i);
                proof {
                    let after = self.entries@;
                    lemma_map_of_at(before, i as int);
                    assert(keys_of(after) =~= keys_of(before).remove(i as int));
                    lemma_filter_out_one(keys_of(before), i as int, keep);
                    assert forall|q: Seq<char>| keys_of(after).contains(q) <==> (keys_of(
                        before,
                    ).contains(q) && q != key@) by {
                        if keys_of(after).contains(q) {
                            let j = keys_of(after).index_of(q);
                            let m = if j < i { j } else { j + 1 };
                            assert(keys_of(before)[m] == q);
                            assert(keys_of(before)[i as int] == key@);
                        }
                        if keys_of(before).contains(q) && q != key@ {
                            let j = keys_of(before).index_of(q);
                            let m = if j < i { j } else { j - 1 };
                            assert(keys_of(after)[m] == q);
                        }
                    }
                    assert forall|q: Seq<char>| map_of(before).remove(key@).contains_key(
                        q,
                    ) implies #[trigger] map_of(after)[q] == map_of(before)[q] by {
                        assert(keys_of(after).contains(q));
                        let j = keys_of(after).index_of(q);
                        let m = if j < i { j } else { j + 1 };
                        assert(keys_of(after)[j] == q);
                        assert(keys_of(before)[m] == q);
                        lemma_map_of_at(before, m);
                    }
                    assert(map_of(after) =~= map_of(before).remove(key@));
                }
                Some(e.1)
            },
            None => {
                proof {
                    assert(map_of(before).remove(key@) =~= map_of(before));
                    assert forall|j: int| 0 <= j < before.len() implies keep(
                        #[trigger] keys_of(before)[j],
                    ) by {
                        if keys_of(before)[j] == key@ {
                            assert(keys_of(before).contains(key@));
                        }
                    }
                    lemma_filter_all(keys_of(before), keep);
                }
                None
            },
        }
    }
}

/// A filter that keeps every item changes nothing.
pub proof fn lemma_filter_all<A>(s: Seq<A>, keep: spec_fn(A) -> bool)
    requires
        forall|i: int| 0 <= i < s.len() ==> keep(#[trigger] s[i]),
    ensures
        s.filter(keep) == s,
    decreases s.len(),
{
    reveal(Seq::filter);
    if s.len() > 0 {
        assert forall|i: int| 0 <= i < s.drop_last().len() implies keep(
            #[trigger] s.drop_last()[i],
        ) by {
            assert(keep(s[i]));
        }
        lemma_filter_all(s.drop_last(), keep);
        assert(s.drop_last().push(s.last()) =~= s);
    }
}

/// A filter that drops the item at one position removes that position.
pub proof fn lemma_filter_out_one<A>(s: Seq<A>, i: int, keep: spec_fn(A) -> bool)
    requires
        s.no_duplicates(),
        0 <= i < s.len(),
        forall|a: A| #[trigger] keep(a) <==> a != s[i],
    ensures
        s.filter(keep) == s.remove(i),
    decreases s.len(),
{
    reveal(Seq::filter);
    if i == s.len() - 1 {
        lemma_filter_all(s.drop_last(), keep);
        assert(s.remove(i) =~= s.drop_last());
    } else {
        assert(s.drop_last()[i] == s[i]);
        lemma_filter_out_one(s.drop_last(), i, keep);
        assert(s.drop_last().remove(i).push(s.last()) =~= s.remove(i));
    }
}

} // verus!
