//! Maps keyed by text.

use crate::text::same_text;
use vstd::prelude::*;

verus! {

/// A map from texts to values, each key held once.
#[derive(Debug)]
pub struct StringMap<V> {
    entries: Vec<(String, V)>,
}

/// No key stands twice among `entries`.
pub open spec fn distinct_keys<V>(entries: Seq<(String, V)>) -> bool {
    forall|i: int, j: int|
        0 <= i < j < entries.len() ==> #[trigger] entries[i].0@ != #[trigger] entries[j].0@
}

/// Entry `i` has the key `key`.
pub open spec fn key_stands_at<V>(entries: Seq<(String, V)>, key: Seq<char>, i: int) -> bool {
    0 <= i < entries.len() && entries[i].0@ == key
}

/// The map that a list of entries stands for.
pub open spec fn entries_map<V>(entries: Seq<(String, V)>) -> Map<Seq<char>, V> {
    Map::new(
        |key: Seq<char>| exists|i: int| key_stands_at(entries, key, i),
        |key: Seq<char>| entries[choose|i: int| key_stands_at(entries, key, i)].1,
    )
}

impl<V> View for StringMap<V> {
    type V = Map<Seq<char>, V>;

    closed spec fn view(&self) -> Map<Seq<char>, V> {
        entries_map(self.entries@)
    }
}

proof fn lemma_entry<V>(entries: Seq<(String, V)>, i: int)
    requires
        distinct_keys(entries),
        0 <= i < entries.len(),
    ensures
        entries_map(entries).contains_key(entries[i].0@),
        entries_map(entries)[entries[i].0@] == entries[i].1,
{
    let key = entries[i].0@;
    assert(key_stands_at(entries, key, i));
    let j = choose|j: int| key_stands_at(entries, key, j);
    assert(key_stands_at(entries, key, j));
    if i < j {
        assert(entries[i].0@ != entries[j].0@);
    }
    if j < i {
        assert(entries[j].0@ != entries[i].0@);
    }
}

/// A list of entries stands for `map` where they have the same keys and values.
proof fn lemma_is_map<V>(entries: Seq<(String, V)>, map: Map<Seq<char>, V>)
    requires
        distinct_keys(entries),
        forall|i: int|
            0 <= i < entries.len() ==> map.contains_key(#[trigger] entries[i].0@)
                && map[entries[i].0@] == entries[i].1,
        forall|key: Seq<char>| #[trigger]
            map.contains_key(key) ==> exists|i: int| key_stands_at(entries, key, i),
    ensures
        entries_map(entries) == map,
{
    assert forall|key: Seq<char>| #[trigger] entries_map(entries).contains_key(key) implies map.contains_key(
    key) && map[key] == entries_map(entries)[key] by {
        let i = choose|i: int| key_stands_at(entries, key, i);
        lemma_entry(entries, i);
    }
    assert(entries_map(entries) =~= map);
}

impl<V> StringMap<V> {
    #[verifier::type_invariant]
    spec fn well_formed(self) -> bool {
        distinct_keys(self.entries@)
    }

    /// The keys in the order in which they are held.
    pub closed spec fn key_list(self) -> Seq<Seq<char>> {
        self.entries@.map_values(|e: (String, V)| e.0@)
    }

    /// The empty map.
    pub fn new() -> (r: StringMap<V>)
        ensures
            r@ == Map::<Seq<char>, V>::empty(),
    {
        let r = StringMap { entries: Vec::new() };
        assert(r@ =~= Map::<Seq<char>, V>::empty());
        r
    }

    fn find(&self, key: &str) -> (r: Option<usize>)
        ensures
            match r {
                Some(i) => key_stands_at(self.entries@, key@, i as int),
                None => forall|i: int| !key_stands_at(self.entries@, key@, i),
            },
    {
        let mut i: usize = 0;
        while i < self.entries.len()
            invariant
                i <= self.entries@.len(),
                forall|j: int| 0 <= j < i ==> !key_stands_at(self.entries@, key@, j),
            decreases self.entries@.len() - i,
        {
            if same_text(self.entries[i].0.as_str(), key) {
                return Some(i);
            }
            i += 1;
        }
        None
    }

    /// The value held under `key`.
    pub fn get(&self, key: &str) -> (r: Option<&V>)
        ensures
            match r {
                Some(v) => self@.contains_key(key@) && *v == self@[key@],
                None => !self@.contains_key(key@),
            },
    {
        proof {
            use_type_invariant(self);
        }
        match self.find(key) {
            Some(i) => {
                proof {
                    lemma_entry(self.entries@, i as int);
                }
                Some(&self.entries[i].1)
            },
            None => None,
        }
    }

    /// Whether something is held under `key`.
    pub fn contains_key(&self, key: &str) -> (r: bool)
        ensures
            r == self@.contains_key(key@),
    {
        self.get(key).is_some()
    }

    /// Whether the map holds nothing.
    pub fn is_empty(&self) -> (r: bool)
        ensures
            r == (self@ == Map::<Seq<char>, V>::empty()),
            r == (self.key_list().len() == 0),
    {
        proof {
            use_type_invariant(self);
            if self.entries@.len() > 0 {
                lemma_entry(self.entries@, 0);
                assert(self@.contains_key(self.entries@[0].0@));
            } else {
                assert(self@ =~= Map::<Seq<char>, V>::empty());
            }
        }
        self.entries.len() == 0
    }

    /// Holds `value` under `key`, in place of what was there.
    pub fn insert(&mut self, key: String, value: V)
        ensures
            final(self)@ == old(self)@.insert(key@, value),
    {
        proof {
            use_type_invariant(&*self);
        }
        let ghost before = self.entries@;
        let mut entries: Vec<(String, V)> = Vec::new();
        let found = self.find(key.as_str());
        std::mem::swap(&mut entries, &mut self.entries);
        let ghost k = key@;
        let ghost goal = entries_map(before).insert(k, value);
        match found {
            Some(i) => {
                entries.set(i, (key, value));
                proof {
                    assert(before[i as int].0@ == k);
                    let now = entries@;
                    assert forall|j: int| 0 <= j < now.len() implies now[j].0@ == before[j].0@ by {}
                    assert(distinct_keys(now));
                    assert forall|j: int| 0 <= j < now.len() implies goal.contains_key(
                        #[trigger] now[j].0@,
                    ) && goal[now[j].0@] == now[j].1 by {
                        lemma_entry(before, j);
                        if j != i {
                            if j < i {
                                assert(before[j].0@ != before[i as int].0@);
                            } else {
                                assert(before[i as int].0@ != before[j].0@);
                            }
                        }
                    }
                    assert forall|x: Seq<char>| #[trigger] goal.contains_key(x) implies exists|j: int|
                        key_stands_at(now, x, j) by {
                        if x == k {
                            assert(key_stands_at(now, x, i as int));
                        } else {
                            let j = choose|j: int| key_stands_at(before, x, j);
                            assert(key_stands_at(now, x, j));
                        }
                    }
                    lemma_is_map(now, goal);
                }
            },
            None => {
                entries.push((key, value));
                proof {
                    let now = entries@;
                    let n = before.len() as int;
                    assert(now[n].0@ == k);
                    assert forall|i: int, j: int| 0 <= i < j < now.len() implies #[trigger] now[i].0@
                        != #[trigger] now[j].0@ by {
                        assert(!key_stands_at(before, k, i));
                        assert(now[i] == before[i]);
                        if j < n {
                            assert(now[j] == before[j]);
                            assert(before[i].0@ != before[j].0@);
                        }
                    }
                    assert forall|j: int| 0 <= j < now.len() implies goal.contains_key(
                        #[trigger] now[j].0@,
                    ) && goal[now[j].0@] == now[j].1 by {
                        if j < n {
                            lemma_entry(before, j);
                            assert(!key_stands_at(before, k, j));
                        }
                    }
                    assert forall|x: Seq<char>| #[trigger] goal.contains_key(x) implies exists|j: int|
                        key_stands_at(now, x, j) by {
                        if x == k {
                            assert(key_stands_at(now, x, n));
                        } else {
                            let j = choose|j: int| key_stands_at(before, x, j);
                            assert(key_stands_at(now, x, j));
                        }
                    }
                    lemma_is_map(now, goal);
                }
            },
        }
        self.entries = entries;
    }

    /// Takes out what is held under `key`.
    pub fn remove(&mut self, key: &str) -> (r: Option<V>)
        ensures
            final(self)@ == old(self)@.remove(key@),
            match r {
                Some(v) => old(self)@.contains_key(key@) && v == old(self)@[key@],
                None => !old(self)@.contains_key(key@),
            },
    {
        proof {
            use_type_invariant(&*self);
        }
        let ghost before = self.entries@;
        let ghost goal = entries_map(before).remove(key@);
        match self.find(key) {
            Some(i) => {
                let mut entries: Vec<(String, V)> = Vec::new();
                std::mem::swap(&mut entries, &mut self.entries);
                let (_, value) = entries.remove(i);
                proof {
                    lemma_entry(before, i as int);
                    let now = entries@;
                    assert(now == before.remove(i as int));
                    assert forall|a: int, b: int| 0 <= a < b < now.len() implies #[trigger] now[a].0@
                        != #[trigger] now[b].0@ by {
                        let a0 = if a < i {
                            a
                        } else {
                            a + 1
                        };
                        let b0 = if b < i {
                            b
                        } else {
                            b + 1
                        };
                        assert(before[a0].0@ != before[b0].0@);
                    }
                    assert forall|j: int| 0 <= j < now.len() implies goal.contains_key(
                        #[trigger] now[j].0@,
                    ) && goal[now[j].0@] == now[j].1 by {
                        if j < i {
                            lemma_entry(before, j);
                            assert(before[j].0@ != before[i as int].0@);
                        } else {
                            lemma_entry(before, j + 1);
                            assert(before[i as int].0@ != before[j + 1].0@);
                        }
                    }
                    assert forall|x: Seq<char>| #[trigger] goal.contains_key(x) implies exists|j: int|
                        key_stands_at(now, x, j) by {
                        let j = choose|j: int| key_stands_at(before, x, j);
                        if j < i {
                            assert(key_stands_at(now, x, j));
                        } else {
                            assert(key_stands_at(now, x, j - 1));
                        }
                    }
                    lemma_is_map(now, goal);
                }
                self.entries = entries;
                Some(value)
            },
            None => {
                assert(goal =~= entries_map(before));
                None
            },
        }
    }

    /// How many keys there are.
    pub fn len(&self) -> (r: usize)
        ensures
            r == self.key_list().len(),
    {
        self.entries.len()
    }

    /// The key at position `i` of the list of keys, with its value.
    pub fn entry(&self, i: usize) -> (r: (&String, &V))
        requires
            i < self.key_list().len(),
        ensures
            r.0@ == self.key_list()[i as int],
            self@.contains_key(r.0@),
            *r.1 == self@[r.0@],
    {
        proof {
            use_type_invariant(self);
            lemma_entry(self.entries@, i as int);
        }
        let e = &self.entries[i];
        (&e.0, &e.1)
    }

    /// The list of keys holds each key of the map, once.
    pub fn keys(&self) -> (r: Vec<String>)
        ensures
            r@.map_values(|s: String| s@) == self.key_list(),
            self.key_list().no_duplicates(),
            forall|k: Seq<char>| #[trigger] self@.contains_key(k) <==> self.key_list().contains(k),
    {
        proof {
            use_type_invariant(self);
            self.lemma_key_list();
        }
        let mut out: Vec<String> = Vec::new();
        let mut i: usize = 0;
        while i < self.entries.len()
            invariant
                i <= self.entries@.len(),
                out@.len() == i,
                forall|j: int| 0 <= j < i ==> #[trigger] out@[j]@ == self.entries@[j].0@,
            decreases self.entries@.len() - i,
        {
            out.push(self.entries[i].0.clone());
            i += 1;
        }
        assert(out@.map_values(|s: String| s@) =~= self.key_list());
        out
    }

    proof fn lemma_key_list(self)
        requires
            distinct_keys(self.entries@),
        ensures
            self.key_list().no_duplicates(),
            forall|k: Seq<char>| #[trigger] self@.contains_key(k) <==> self.key_list().contains(k),
    {
        let list = self.key_list();
        assert forall|i: int, j: int| 0 <= i < list.len() && 0 <= j < list.len() && i != j implies list[i]
            != list[j] by {
            if i < j {
                assert(self.entries@[i].0@ != self.entries@[j].0@);
            } else {
                assert(self.entries@[j].0@ != self.entries@[i].0@);
            }
        }
        assert forall|k: Seq<char>| #[trigger] self@.contains_key(k) <==> list.contains(k) by {
            if self@.contains_key(k) {
                let i = choose|i: int| key_stands_at(self.entries@, k, i);
                assert(list[i] == k);
            }
            if list.contains(k) {
                let i = choose|i: int| 0 <= i < list.len() && list[i] == k;
                lemma_entry(self.entries@, i);
            }
        }
    }
}

impl StringMap<String> {
    /// A copy of a map of texts.
    pub fn duplicate(&self) -> (r: StringMap<String>)
        ensures
            r@ == self@,
            r.key_list() == self.key_list(),
    {
        proof {
            use_type_invariant(self);
        }
        let mut entries: Vec<(String, String)> = Vec::new();
        let mut i: usize = 0;
        while i < self.entries.len()
            invariant
                i <= self.entries@.len(),
                entries@.len() == i,
                forall|j: int| 0 <= j < i ==> #[trigger] entries@[j] == self.entries@[j],
            decreases self.entries@.len() - i,
        {
            let e = &self.entries[i];
            entries.push((e.0.clone(), e.1.clone()));
            i += 1;
        }
        assert(entries@ =~= self.entries@);
        StringMap { entries }
    }
}

} // verus!
