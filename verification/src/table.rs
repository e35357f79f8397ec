use vstd::prelude::*;

verus! {

/// The value stored under `name` in a list of named entries: that of the first entry with
/// that name, if any.
pub open spec fn lookup<T>(entries: Seq<(String, T)>, name: Seq<char>) -> Option<T>
    decreases entries.len(),
{
    if entries.len() == 0 {
        None
    } else if entries[0].0@ == name {
        Some(entries[0].1)
    } else {
        lookup(entries.drop_first(), name)
    }
}

/// Whether no two entries share a name.
pub open spec fn names_distinct<T>(entries: Seq<(String, T)>) -> bool {
    forall|i: int, j: int| 0 <= i < j < entries.len() ==> entries[i].0@ != entries[j].0@
}

/// A map from names to values, kept in the order in which names were first inserted.
#[derive(Debug)]
pub struct Table<T> {
    pub entries: Vec<(String, T)>,
}

pub proof fn lemma_lookup_index<T>(entries: Seq<(String, T)>, name: Seq<char>, i: int)
    requires
        names_distinct(entries),
        0 <= i < entries.len(),
        entries[i].0@ == name,
    ensures
        lookup(entries, name) == Some(entries[i].1),
    decreases entries.len(),
{
    if i > 0 {
        assert(entries[0].0@ != name);
        lemma_lookup_index(entries.drop_first(), name, i - 1);
    }
}

pub proof fn lemma_lookup_absent<T>(entries: Seq<(String, T)>, name: Seq<char>)
    requires
        forall|i: int| 0 <= i < entries.len() ==> entries[i].0@ != name,
    ensures
        lookup(entries, name) is None,
    decreases entries.len(),
{
    if entries.len() > 0 {
        lemma_lookup_absent(entries.drop_first(), name);
    }
}

pub proof fn lemma_lookup_some<T>(entries: Seq<(String, T)>, name: Seq<char>)
    requires
        lookup(entries, name) is Some,
    ensures
        exists|i: int| 0 <= i < entries.len() && entries[i].0@ == name && lookup(entries, name)
            == Some(entries[i].1),
    decreases entries.len(),
{
    if entries[0].0@ != name {
        lemma_lookup_some(entries.drop_first(), name);
        let i = choose|i: int|
            0 <= i < entries.drop_first().len() && entries.drop_first()[i].0@ == name && lookup(
                entries.drop_first(),
                name,
            ) == Some(entries.drop_first()[i].1);
        assert(entries[i + 1] == entries.drop_first()[i]);
    }
}

impl<T> Table<T> {
    pub open spec fn wf(&self) -> bool {
        names_distinct(self.entries@)
    }

    /// The value stored under `name`.
    pub open spec fn spec_get(&self, name: Seq<char>) -> Option<T> {
        lookup(self.entries@, name)
    }

    /// An empty table.
    pub fn new() -> (ret: Table<T>)
        ensures
            ret.wf(),
            ret.entries@.len() == 0,
            forall|name: Seq<char>| (#[trigger] ret.spec_get(name)) is None,
    {
        Table { entries: Vec::new() }
    }

    /// The number of names in the table.
    pub fn len(&self) -> (ret: usize)
        ensures
            ret == self.entries@.len(),
    {
        self.entries.len()
    }

    /// The position of the entry named `name`, if there is one.
    pub fn position(&self, name: &str) -> (ret: Option<usize>)
        requires
            self.wf(),
        ensures
            match ret {
                Some(i) => i < self.entries@.len() && self.entries@[i as int].0@ == name@
                    && self.spec_get(name@) == Some(self.entries@[i as int].1),
                None => self.spec_get(name@) is None,
            },
    {
        let key = name.to_owned();
        for i in 0..self.entries.len()
            invariant
                key@ == name@,
                names_distinct(self.entries@),
                forall|j: int| 0 <= j < i ==> self.entries@[j].0@ != name@,
        {
            if self.entries[i].0 == key {
                proof {
                    lemma_lookup_index(self.entries@, name@, i as int);
                }
                return Some(i);
            }
        }
        proof {
            lemma_lookup_absent(self.entries@, name@);
        }
        None
    }

    /// Whether some entry is named `name`.
    pub fn contains_key(&self, name: &str) -> (ret: bool)
        requires
            self.wf(),
        ensures
            ret == self.spec_get(name@) is Some,
    {
        self.position(name).is_some()
    }

    /// The value stored under `name`, if any.
    pub fn get(&self, name: &str) -> (ret: Option<&T>)
        requires
            self.wf(),
        ensures
            match ret {
                Some(v) => self.spec_get(name@) == Some(*v),
                None => self.spec_get(name@) is None,
            },
    {
        match self.position(name) {
            Some(i) => Some(&self.entries[i].1),
            None => None,
        }
    }

    /// Stores `value` under `name`, replacing the value stored there before, if any.
    pub fn insert(&mut self, name: String, value: T)
        requires
            old(self).wf(),
        ensures
            final(self).wf(),
            final(self).spec_get(name@) == Some(value),
            forall|other: Seq<char>|
                other != name@ ==> #[trigger] final(self).spec_get(other) == old(self).spec_get(
                    other,
                ),
    {
        let ghost old_entries = self.entries@;
        match self.position(name.as_str()) {
            Some(i) => {
                let ghost key = self.entries@[i as int].0;
                let mut entries = Vec::new();
                std::mem::swap(&mut entries, &mut self.entries);
                entries.set(i, (name, value));
                self.entries = entries;
                assert(self.entries@ == old_entries.update(i as int, (self.entries@[i as int].0, value)));
                assert(self.wf());
                proof {
                    lemma_lookup_index(self.entries@, self.entries@[i as int].0@, i as int);
                    assert forall|other: Seq<char>| other != name@ implies #[trigger] self.spec_get(
                        other,
                    ) == lookup(old_entries, other) by {
                        lemma_lookup_other(old_entries, self.entries@, other, i as int);
                    }
                }
            },
            None => {
                let ghost n = name@;
                self.entries.push((name, value));
                assert(self.entries@ == old_entries.push(self.entries@.last()));
                assert(self.wf()) by {
                    assert forall|j: int| 0 <= j < old_entries.len() implies old_entries[j].0@ != n by {
                        if old_entries[j].0@ == n {
                            lemma_lookup_index(old_entries, n, j);
                        }
                    }
                }
                proof {
                    lemma_lookup_index(self.entries@, n, old_entries.len() as int);
                    assert forall|other: Seq<char>| other != n implies #[trigger] self.spec_get(other)
                        == lookup(old_entries, other) by {
                        lemma_lookup_push(old_entries, self.entries@.last(), other);
                    }
                }
            },
        }
    }
}

proof fn lemma_lookup_other<T>(a: Seq<(String, T)>, b: Seq<(String, T)>, other: Seq<char>, i: int)
    requires
        a.len() == b.len(),
        0 <= i < a.len(),
        a[i].0@ == b[i].0@,
        forall|j: int| 0 <= j < a.len() && j != i ==> a[j] == b[j],
        a[i].0@ != other,
    ensures
        lookup(b, other) == lookup(a, other),
    decreases a.len(),
{
    if a.len() > 0 {
        if i > 0 {
            lemma_lookup_other(a.drop_first(), b.drop_first(), other, i - 1);
        } else {
            assert(a.drop_first() =~= b.drop_first());
        }
    }
}

proof fn lemma_lookup_push<T>(a: Seq<(String, T)>, e: (String, T), other: Seq<char>)
    requires
        e.0@ != other,
    ensures
        lookup(a.push(e), other) == lookup(a, other),
    decreases a.len(),
{
    if a.len() > 0 {
        assert(a.push(e)[0] == a[0]);
        assert(a.push(e).drop_first() =~= a.drop_first().push(e));
        lemma_lookup_push(a.drop_first(), e, other);
        assert(lookup(a.push(e).drop_first(), other) == lookup(a.drop_first(), other));
    } else {
        assert(a.push(e)[0] == e);
        assert(a.push(e).drop_first() =~= Seq::<(String, T)>::empty());
        assert(lookup(a.push(e).drop_first(), other) is None);
        assert(lookup(a, other) is None);
    }
}

} // verus!

verus! {

/// Whether the keys of the entries rise strictly.
pub open spec fn ascending<V>(e: Seq<(u32, V)>) -> bool {
    forall|i: int, j: int| 0 <= i < j < e.len() ==> e[i].0 < e[j].0
}

/// The map that entries with distinct keys stand for.
pub open spec fn map_of<V>(e: Seq<(u32, V)>) -> Map<u32, V> {
    Map::new(
        |k: u32| exists|i: int| 0 <= i < e.len() && e[i].0 == k,
        |k: u32| e[choose|i: int| 0 <= i < e.len() && e[i].0 == k].1,
    )
}

/// A map keyed by integers whose entries are kept in ascending order of key.
#[derive(Debug)]
pub struct IdMap<V> {
    pub entries: Vec<(u32, V)>,
}

pub proof fn lemma_map_of_index<V>(e: Seq<(u32, V)>, i: int)
    requires
        ascending(e),
        0 <= i < e.len(),
    ensures
        map_of(e).contains_key(e[i].0),
        map_of(e)[e[i].0] == e[i].1,
{
    let k = e[i].0;
    assert(exists|j: int| 0 <= j < e.len() && e[j].0 == k);
    let j = choose|j: int| 0 <= j < e.len() && e[j].0 == k;
    if j != i {
        if j < i {
            assert(e[j].0 < e[i].0);
        } else {
            assert(e[i].0 < e[j].0);
        }
    }
}

impl<V> IdMap<V> {
    pub open spec fn wf(&self) -> bool {
        ascending(self.entries@)
    }

    pub open spec fn view(&self) -> Map<u32, V> {
        map_of(self.entries@)
    }

    /// An empty map.
    pub fn new() -> (ret: IdMap<V>)
        ensures
            ret.wf(),
            ret.view() == Map::<u32, V>::empty(),
    {
        let ret = IdMap { entries: Vec::new() };
        assert(ret.view() =~= Map::<u32, V>::empty());
        ret
    }

    /// The number of entries.
    pub fn len(&self) -> (ret: usize)
        requires
            self.wf(),
        ensures
            ret == self.view().dom().len(),
            ret == self.entries@.len(),
    {
        proof {
            self.lemma_dom_len();
        }
        self.entries.len()
    }

    pub proof fn lemma_dom_len(&self)
        requires
            self.wf(),
        ensures
            self.view().dom().len() == self.entries@.len(),
            self.view().dom().finite(),
        decreases self.entries@.len(),
    {
        let e = self.entries@;
        let keys = e.map_values(|p: (u32, V)| p.0);
        assert(self.view().dom() =~= keys.to_set()) by {
            assert forall|k: u32| self.view().dom().contains(k) implies keys.to_set().contains(k) by {
                let i = choose|i: int| 0 <= i < e.len() && e[i].0 == k;
                assert(keys[i] == k);
            }
            assert forall|k: u32| keys.to_set().contains(k) implies self.view().dom().contains(k) by {
                let i = choose|i: int| 0 <= i < keys.len() && keys[i] == k;
                assert(e[i].0 == k);
            }
        }
        assert(keys.no_duplicates()) by {
            assert forall|i: int, j: int| 0 <= i < keys.len() && 0 <= j < keys.len() && i != j implies keys[i] != keys[j] by {
                if i < j {
                    assert(e[i].0 < e[j].0);
                } else {
                    assert(e[j].0 < e[i].0);
                }
            }
        }
        keys.unique_seq_to_set();
    }

    /// The position of the entry with key `k`, if any.
    pub fn position(&self, k: u32) -> (ret: Option<usize>)
        requires
            self.wf(),
        ensures
            match ret {
                Some(i) => i < self.entries@.len() && self.entries@[i as int].0 == k,
                None => !self.view().contains_key(k),
            },
    {
        for i in 0..self.entries.len()
            invariant
                forall|j: int| 0 <= j < i ==> self.entries@[j].0 != k,
        {
            if self.entries[i].0 == k {
                return Some(i);
            }
        }
        None
    }

    /// The value under `k`, if any.
    pub fn get(&self, k: u32) -> (ret: Option<&V>)
        requires
            self.wf(),
        ensures
            match ret {
                Some(v) => self.view().contains_key(k) && self.view()[k] == *v,
                None => !self.view().contains_key(k),
            },
    {
        match self.position(k) {
            Some(i) => {
                proof {
                    lemma_map_of_index(self.entries@, i as int);
                }
                Some(&self.entries[i].1)
            },
            None => None,
        }
    }

    /// Whether some value is stored under `k`.
    pub fn contains_key(&self, k: u32) -> (ret: bool)
        requires
            self.wf(),
        ensures
            ret == self.view().contains_key(k),
    {
        match self.position(k) {
            Some(i) => {
                proof {
                    lemma_map_of_index(self.entries@, i as int);
                }
                true
            },
            None => false,
        }
    }

    /// Stores `v` under `k`, in place of the value stored there before.
    pub fn insert(&mut self, k: u32, v: V)
        requires
            old(self).wf(),
        ensures
            final(self).wf(),
            final(self).view() == old(self).view().insert(k, v),
    {
        let ghost e0 = self.entries@;
        let mut p: usize = 0;
        while p < self.entries.len() && self.entries[p].0 < k
            invariant
                self.entries@ == e0,
                ascending(e0),
                p <= e0.len(),
                forall|j: int| 0 <= j < p ==> e0[j].0 < k,
            decreases e0.len() - p,
        {
            p = p + 1;
        }
        if p < self.entries.len() && self.entries[p].0 == k {
            let mut entries = Vec::new();
            std::mem::swap(&mut entries, &mut self.entries);
            entries.set(p, (k, v));
            self.entries = entries;
            let ghost e1 = self.entries@;
            assert(ascending(e1)) by {
                assert forall|i: int, j: int| 0 <= i < j < e1.len() implies e1[i].0 < e1[j].0 by {
                    assert(e1[i].0 == e0[i].0);
                    assert(e1[j].0 == e0[j].0);
                }
            }
            proof {
                self.lemma_view_after_update(e0, p as int, k, v);
            }
        } else {
            self.entries.insert(p, (k, v));
            let ghost e1 = self.entries@;
            assert(e1 == e0.insert(p as int, (k, v)));
            assert(ascending(e1)) by {
                assert forall|i: int, j: int| 0 <= i < j < e1.len() implies e1[i].0 < e1[j].0 by {
                    if j < p {
                    } else if j == p {
                        assert(e1[i] == e0[i]);
                    } else if i < p {
                        assert(e1[j] == e0[j - 1]);
                        if p < e0.len() {
                            assert(e0[p as int].0 > k);
                            assert(e0[j - 1].0 >= e0[p as int].0);
                        }
                    } else if i == p {
                        assert(e1[j] == e0[j - 1]);
                        assert(e0[p as int].0 > k);
                        if j - 1 > p {
                            assert(e0[j - 1].0 > e0[p as int].0);
                        }
                    } else {
                        assert(e1[i] == e0[i - 1]);
                        assert(e1[j] == e0[j - 1]);
                    }
                }
            }
            proof {
                assert(!map_of(e0).contains_key(k)) by {
                    if map_of(e0).contains_key(k) {
                        let i = choose|i: int| 0 <= i < e0.len() && e0[i].0 == k;
                        if i >= p {
                            assert(e0[p as int].0 >= k);
                            if i > p {
                                assert(e0[p as int].0 < e0[i].0);
                            }
                        }
                    }
                }
                assert forall|q: u32| #[trigger] map_of(e1).contains_key(q) == map_of(e0).insert(k, v).contains_key(q) by {
                    if map_of(e0).contains_key(q) {
                        let i = choose|i: int| 0 <= i < e0.len() && e0[i].0 == q;
                        if i < p {
                            assert(e1[i] == e0[i]);
                        } else {
                            assert(e1[i + 1] == e0[i]);
                        }
                    }
                    if q == k {
                        assert(e1[p as int].0 == k);
                    }
                    if map_of(e1).contains_key(q) {
                        let i = choose|i: int| 0 <= i < e1.len() && e1[i].0 == q;
                        if i < p {
                            assert(e0[i] == e1[i]);
                        } else if i > p {
                            assert(e0[i - 1] == e1[i]);
                        }
                    }
                }
                assert forall|q: u32| #[trigger] map_of(e1).contains_key(q) implies map_of(e1)[q] == map_of(e0).insert(k, v)[q] by {
                    let i = choose|i: int| 0 <= i < e1.len() && e1[i].0 == q;
                    lemma_map_of_index(e1, i);
                    if i < p {
                        assert(e0[i] == e1[i]);
                        lemma_map_of_index(e0, i);
                    } else if i > p {
                        assert(e0[i - 1] == e1[i]);
                        lemma_map_of_index(e0, i - 1);
                    }
                }
                assert(map_of(e1) =~= map_of(e0).insert(k, v));
            }
        }
    }

    proof fn lemma_view_after_update(&self, e0: Seq<(u32, V)>, p: int, k: u32, v: V)
        requires
            ascending(e0),
            ascending(self.entries@),
            0 <= p < e0.len(),
            e0[p].0 == k,
            self.entries@ == e0.update(p, (k, v)),
        ensures
            self.view() == map_of(e0).insert(k, v),
    {
        let e1 = self.entries@;
        assert forall|q: u32| #[trigger] map_of(e1).contains_key(q) == map_of(e0).insert(k, v).contains_key(q) by {
            if map_of(e0).contains_key(q) {
                let i = choose|i: int| 0 <= i < e0.len() && e0[i].0 == q;
                assert(e1[i].0 == q);
            }
            if map_of(e1).contains_key(q) {
                let i = choose|i: int| 0 <= i < e1.len() && e1[i].0 == q;
                assert(e0[i].0 == q);
            }
            if q == k {
                assert(e1[p].0 == k);
            }
        }
        assert forall|q: u32| #[trigger] map_of(e1).contains_key(q) implies map_of(e1)[q] == map_of(e0).insert(k, v)[q] by {
            let i = choose|i: int| 0 <= i < e1.len() && e1[i].0 == q;
            lemma_map_of_index(e1, i);
            if i != p {
                assert(e0[i] == e1[i]);
                lemma_map_of_index(e0, i);
            }
        }
        assert(map_of(e1) =~= map_of(e0).insert(k, v));
    }

    /// Takes the value under `k` out of the map, if there is one.
    pub fn remove(&mut self, k: u32) -> (ret: Option<V>)
        requires
            old(self).wf(),
        ensures
            final(self).wf(),
            match ret {
                Some(v) => old(self).view().contains_key(k) && old(self).view()[k] == v,
                None => !old(self).view().contains_key(k) && *final(self) == *old(self),
            },
            final(self).view() == old(self).view().remove(k),
    {
        let ghost e0 = self.entries@;
        match self.position(k) {
            None => {
                assert(map_of(e0) =~= map_of(e0).remove(k));
                None
            },
            Some(p) => {
                proof {
                    lemma_map_of_index(e0, p as int);
                }
                let (_, v) = self.entries.remove(p);
                let ghost e1 = self.entries@;
                assert(e1 == e0.remove(p as int));
                assert(ascending(e1)) by {
                    assert forall|i: int, j: int| 0 <= i < j < e1.len() implies e1[i].0 < e1[j].0 by {
                        if j < p {
                        } else if i < p {
                            assert(e1[j] == e0[j + 1]);
                        } else {
                            assert(e1[i] == e0[i + 1]);
                            assert(e1[j] == e0[j + 1]);
                        }
                    }
                }
                proof {
                    assert forall|q: u32| #[trigger] map_of(e1).contains_key(q) == map_of(e0).remove(k).contains_key(q) by {
                        if map_of(e0).contains_key(q) && q != k {
                            let i = choose|i: int| 0 <= i < e0.len() && e0[i].0 == q;
                            if i < p {
                                assert(e1[i] == e0[i]);
                            } else {
                                assert(i != p);
                                assert(e1[i - 1] == e0[i]);
                            }
                        }
                        if map_of(e1).contains_key(q) {
                            let i = choose|i: int| 0 <= i < e1.len() && e1[i].0 == q;
                            if i < p {
                                assert(e0[i] == e1[i]);
                                assert(e0[i].0 < e0[p as int].0);
                            } else {
                                assert(e0[i + 1] == e1[i]);
                                assert(e0[i + 1].0 > e0[p as int].0);
                            }
                        }
                    }
                    assert forall|q: u32| #[trigger] map_of(e1).contains_key(q) implies map_of(e1)[q] == map_of(e0).remove(k)[q] by {
                        let i = choose|i: int| 0 <= i < e1.len() && e1[i].0 == q;
                        lemma_map_of_index(e1, i);
                        if i < p {
                            assert(e0[i] == e1[i]);
                            lemma_map_of_index(e0, i);
                        } else {
                            assert(e0[i + 1] == e1[i]);
                            lemma_map_of_index(e0, i + 1);
                        }
                    }
                    assert(map_of(e1) =~= map_of(e0).remove(k));
                }
                Some(v)
            },
        }
    }
}

} // verus!
