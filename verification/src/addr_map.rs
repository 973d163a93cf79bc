use vstd::prelude::*;
use crate::addr::Addr;

verus! {

/// The map that a list of (key, value) entries denotes: later entries
/// override earlier ones with the same key.
pub open spec fn map_of<V>(entries: Seq<(Seq<u8>, V)>) -> Map<Seq<u8>, V>
    decreases entries.len(),
{
    if entries.len() == 0 {
        Map::empty()
    } else {
        map_of(entries.drop_last()).insert(entries.last().0, entries.last().1)
    }
}

/// The entries with each address taken by its bytes.
pub open spec fn entry_pairs<V>(entries: Seq<(Addr, V)>) -> Seq<(Seq<u8>, V)> {
    entries.map_values(|e: (Addr, V)| (e.0@, e.1))
}

/// No key occurs twice among the entries.
pub open spec fn keys_distinct<V>(entries: Seq<(Seq<u8>, V)>) -> bool {
    forall|i: int, j: int|
        0 <= i < entries.len() && 0 <= j < entries.len() && i != j ==> #[trigger] entries[i].0
            != #[trigger] entries[j].0
}

proof fn lemma_map_of_contains<V>(entries: Seq<(Seq<u8>, V)>, k: Seq<u8>)
    ensures
        map_of(entries).contains_key(k) <==> exists|i: int|
            0 <= i < entries.len() && (#[trigger] entries[i]).0 == k,
    decreases entries.len(),
{
    if entries.len() > 0 {
        let d = entries.drop_last();
        lemma_map_of_contains(d, k);
        if map_of(entries).contains_key(k) {
            if k != entries.last().0 {
                let i = choose|i: int| 0 <= i < d.len() && (#[trigger] d[i]).0 == k;
                assert(entries[i] == d[i]);
            } else {
                assert(entries[entries.len() - 1].0 == k);
            }
        }
        if exists|i: int| 0 <= i < entries.len() && (#[trigger] entries[i]).0 == k {
            let i = choose|i: int| 0 <= i < entries.len() && (#[trigger] entries[i]).0 == k;
            if i < entries.len() - 1 {
                assert(d[i] == entries[i]);
            }
        }
    }
}

proof fn lemma_map_of_value<V>(entries: Seq<(Seq<u8>, V)>, i: int)
    requires
        keys_distinct(entries),
        0 <= i < entries.len(),
    ensures
        map_of(entries).contains_key(entries[i].0),
        map_of(entries)[entries[i].0] == entries[i].1,
    decreases entries.len(),
{
    let d = entries.drop_last();
    if i < entries.len() - 1 {
        assert(d[i] == entries[i]);
        assert(keys_distinct(d)) by {
            assert forall|a: int, b: int|
                0 <= a < d.len() && 0 <= b < d.len() && a != b implies #[trigger] d[a].0
                != #[trigger] d[b].0 by {
                assert(d[a] == entries[a] && d[b] == entries[b]);
            }
        }
        lemma_map_of_value(d, i);
        assert(entries[i].0 != entries[entries.len() - 1].0);
    }
}

proof fn lemma_distinct_drop_last<V>(entries: Seq<(Seq<u8>, V)>)
    requires
        keys_distinct(entries),
        entries.len() > 0,
    ensures
        keys_distinct(entries.drop_last()),
        !map_of(entries.drop_last()).contains_key(entries.last().0),
{
    let d = entries.drop_last();
    assert forall|a: int, b: int|
        0 <= a < d.len() && 0 <= b < d.len() && a != b implies #[trigger] d[a].0
        != #[trigger] d[b].0 by {
        assert(d[a] == entries[a] && d[b] == entries[b]);
    }
    lemma_map_of_contains(d, entries.last().0);
    if map_of(d).contains_key(entries.last().0) {
        let i = choose|i: int| 0 <= i < d.len() && (#[trigger] d[i]).0 == entries.last().0;
        assert(d[i] == entries[i]);
        assert(entries[i].0 == entries[entries.len() - 1].0);
    }
}

proof fn lemma_map_of_update<V>(entries: Seq<(Seq<u8>, V)>, i: int, v: V)
    requires
        keys_distinct(entries),
        0 <= i < entries.len(),
    ensures
        map_of(entries.update(i, (entries[i].0, v))) =~= map_of(entries).insert(entries[i].0, v),
    decreases entries.len(),
{
    let k = entries[i].0;
    let u = entries.update(i, (k, v));
    let d = entries.drop_last();
    lemma_distinct_drop_last(entries);
    if i == entries.len() - 1 {
        assert(u.drop_last() =~= d);
    } else {
        assert(u.drop_last() =~= d.update(i, (k, v)));
        assert(d[i] == entries[i]);
        lemma_map_of_update(d, i, v);
        assert(entries[i].0 != entries[entries.len() - 1].0);
    }
}

proof fn lemma_map_of_remove<V>(entries: Seq<(Seq<u8>, V)>, i: int)
    requires
        keys_distinct(entries),
        0 <= i < entries.len(),
    ensures
        map_of(entries.remove(i)) =~= map_of(entries).remove(entries[i].0),
    decreases entries.len(),
{
    let k = entries[i].0;
    let r = entries.remove(i);
    let d = entries.drop_last();
    lemma_distinct_drop_last(entries);
    if i == entries.len() - 1 {
        assert(r =~= d);
    } else {
        assert(r.drop_last() =~= d.remove(i));
        assert(r.last() == entries.last());
        assert(d[i] == entries[i]);
        lemma_map_of_remove(d, i);
        assert(entries[i].0 != entries[entries.len() - 1].0);
    }
}

/// A finite map from addresses to values, held as a list of entries in
/// which no address occurs twice.
pub struct AddrMap<V> {
    entries: Vec<(Addr, V)>,
}

impl<V> View for AddrMap<V> {
    type V = Map<Seq<u8>, V>;

    /// The map that this value stands for.
    closed spec fn view(&self) -> Map<Seq<u8>, V> {
        map_of(entry_pairs(self.entries@))
    }
}

impl<V: Copy> AddrMap<V> {
    /// The entries with each address taken by its bytes.
    pub closed spec fn pairs(&self) -> Seq<(Seq<u8>, V)> {
        entry_pairs(self.entries@)
    }

    /// The representation invariant: no address occurs twice.
    pub closed spec fn wf(&self) -> bool {
        keys_distinct(self.pairs())
    }

    /// The empty map.
    pub fn new() -> (r: Self)
        ensures
            r.wf(),
            r@ == Map::<Seq<u8>, V>::empty(),
    {
        let r = AddrMap { entries: Vec::new() };
        assert(r.pairs() =~= Seq::<(Seq<u8>, V)>::empty());
        r
    }

    fn find(&self, k: &Addr) -> (r: Option<usize>)
        requires
            self.wf(),
        ensures
            match r {
                Some(i) => i < self.entries@.len() && self.entries@[i as int].0@ == k@,
                None => !self@.contains_key(k@),
            },
    {
        let mut i: usize = 0;
        while i < self.entries.len()
            invariant
                i <= self.entries@.len(),
                forall|j: int| 0 <= j < i ==> (#[trigger] self.entries@[j]).0@ != k@,
            decreases self.entries.len() - i,
        {
            if self.entries[i].0.same(k) {
                return Some(i);
            }
            i = i + 1;
        }
        proof {
            lemma_map_of_contains(self.pairs(), k@);
            if self@.contains_key(k@) {
                let j = choose|j: int|
                    0 <= j < self.pairs().len() && (#[trigger] self.pairs()[j]).0 == k@;
                assert(self.pairs()[j].0 == self.entries@[j].0@);
            }
        }
        None
    }

    /// The value stored under `k`, if any.
    pub fn get(&self, k: &Addr) -> (r: Option<V>)
        requires
            self.wf(),
        ensures
            r == (if self@.contains_key(k@) {
                Some(self@[k@])
            } else {
                None
            }),
    {
        match self.find(k) {
            Some(i) => {
                proof {
                    lemma_map_of_value(self.pairs(), i as int);
                }
                Some(self.entries[i].1)
            },
            None => None,
        }
    }

    /// Whether some value is stored under `k`.
    pub fn contains(&self, k: &Addr) -> (r: bool)
        requires
            self.wf(),
        ensures
            r == self@.contains_key(k@),
    {
        match self.get(k) {
            Some(_) => true,
            None => false,
        }
    }

    /// Stores `v` under `k`, replacing what was there.
    pub fn set(&mut self, k: &Addr, v: V)
        requires
            old(self).wf(),
        ensures
            final(self).wf(),
            final(self)@ == old(self)@.insert(k@, v),
    {
        match self.find(k) {
            Some(i) => {
                let ghost p = self.pairs();
                let key = self.entries[i].0.copy();
                self.entries.set(i, (key, v));
                proof {
                    assert(self.pairs() =~= p.update(i as int, (p[i as int].0, v)));
                    lemma_map_of_update(p, i as int, v);
                    assert forall|a: int, b: int|
                        0 <= a < self.pairs().len() && 0 <= b < self.pairs().len() && a != b
                        implies #[trigger] self.pairs()[a].0 != #[trigger] self.pairs()[b].0 by {
                        assert(self.pairs()[a].0 == p[a].0 && self.pairs()[b].0 == p[b].0);
                    }
                }
            },
            None => {
                let ghost p = self.pairs();
                self.entries.push((k.copy(), v));
                proof {
                    assert(self.pairs() =~= p.push((k@, v)));
                    assert(self.pairs().drop_last() =~= p);
                    lemma_map_of_contains(p, k@);
                    assert forall|a: int, b: int|
                        0 <= a < self.pairs().len() && 0 <= b < self.pairs().len() && a != b
                        implies #[trigger] self.pairs()[a].0 != #[trigger] self.pairs()[b].0 by {
                        if a < p.len() {
                            assert(self.pairs()[a] == p[a]);
                        }
                        if b < p.len() {
                            assert(self.pairs()[b] == p[b]);
                        }
                    }
                }
            },
        }
    }

    /// Removes whatever is stored under `k`.
    pub fn remove(&mut self, k: &Addr)
        requires
            old(self).wf(),
        ensures
            final(self).wf(),
            final(self)@ == old(self)@.remove(k@),
    {
        match self.find(k) {
            Some(i) => {
                let ghost p = self.pairs();
                self.entries.remove(i);
                proof {
                    assert(self.pairs() =~= p.remove(i as int));
                    lemma_map_of_remove(p, i as int);
                    assert forall|a: int, b: int|
                        0 <= a < self.pairs().len() && 0 <= b < self.pairs().len() && a != b
                        implies #[trigger] self.pairs()[a].0 != #[trigger] self.pairs()[b].0 by {
                        let a2 = if a < i { a } else { a + 1 };
                        let b2 = if b < i { b } else { b + 1 };
                        assert(self.pairs()[a] == p[a2] && self.pairs()[b] == p[b2]);
                    }
                }
            },
            None => {
                assert(old(self)@.remove(k@) =~= old(self)@);
            },
        }
    }

    /// The number of entries.
    pub fn len(&self) -> (r: usize)
        ensures
            r == self.pairs().len(),
    {
        self.entries.len()
    }

    /// The value of entry `i`.
    pub fn value_at(&self, i: usize) -> (r: V)
        requires
            i < self.pairs().len(),
        ensures
            r == self.pairs()[i as int].1,
    {
        self.entries[i].1
    }

    /// The map's keys are exactly the entries' keys, and each entry's value
    /// is the map's value at its key.
    pub proof fn lemma_entries(&self)
        requires
            self.wf(),
        ensures
            forall|i: int|
                0 <= i < self.pairs().len() ==> self@.contains_key(#[trigger] self.pairs()[i].0)
                    && self@[self.pairs()[i].0] == self.pairs()[i].1,
            forall|k: Seq<u8>| #[trigger]
                self@.contains_key(k) ==> exists|i: int|
                    0 <= i < self.pairs().len() && (#[trigger] self.pairs()[i]).0 == k,
    {
        assert forall|i: int| 0 <= i < self.pairs().len() implies self@.contains_key(
            #[trigger] self.pairs()[i].0,
        ) && self@[self.pairs()[i].0] == self.pairs()[i].1 by {
            lemma_map_of_value(self.pairs(), i);
        }
        assert forall|k: Seq<u8>| #[trigger] self@.contains_key(k) implies exists|i: int|
            0 <= i < self.pairs().len() && (#[trigger] self.pairs()[i]).0 == k by {
            lemma_map_of_contains(self.pairs(), k);
        }
    }

    /// The entries, with no address twice, denoting this map.
    pub fn into_entries(self) -> (r: Vec<(Addr, V)>)
        requires
            self.wf(),
        ensures
            keys_distinct(entry_pairs(r@)),
            map_of(entry_pairs(r@)) == self@,
    {
        self.entries
    }

    /// The map denoted by `entries`, provided no address occurs twice.
    pub fn from_entries(entries: Vec<(Addr, V)>) -> (r: Option<Self>)
        ensures
            match r {
                Some(m) => {
                    &&& keys_distinct(entry_pairs(entries@))
                    &&& m.wf()
                    &&& m@ == map_of(entry_pairs(entries@))
                },
                None => !keys_distinct(entry_pairs(entries@)),
            },
    {
        let ghost p = entry_pairs(entries@);
        let mut i: usize = 0;
        while i < entries.len()
            invariant
                i <= entries@.len(),
                p == entry_pairs(entries@),
                forall|a: int, b: int|
                    0 <= a < i && 0 <= b < i && a != b ==> #[trigger] p[a].0 != #[trigger] p[b].0,
            decreases entries.len() - i,
        {
            let mut j: usize = 0;
            while j < i
                invariant
                    i < entries@.len(),
                    j <= i,
                    p == entry_pairs(entries@),
                    forall|a: int, b: int|
                        0 <= a < i && 0 <= b < i && a != b ==> #[trigger] p[a].0 != #[trigger] p[b].0,
                    forall|b: int| 0 <= b < j ==> p[i as int].0 != #[trigger] p[b].0,
                decreases i - j,
            {
                if entries[i].0.same(&entries[j].0) {
                    assert(p[i as int].0 == p[j as int].0);
                    return None;
                }
                j = j + 1;
            }
            i = i + 1;
        }
        let m = AddrMap { entries };
        assert(m.pairs() == p);
        Some(m)
    }
}

} // verus!
