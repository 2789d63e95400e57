//! Small maps for labels: names to instruction offsets, and call sites to names.
//! Each is a list of entries with distinct keys; inserting a present key replaces its value.
use vstd::prelude::*;

verus! {

/// No key occurs twice.
pub open spec fn keys_distinct<K, V>(s: Seq<(K, V)>) -> bool {
    forall|i: int, j: int| 0 <= i < j < s.len() ==> s[i].0 != s[j].0
}

/// The map that a list of entries with distinct keys stands for.
pub open spec fn assoc_map<K, V>(s: Seq<(K, V)>) -> Map<K, V> {
    Map::new(
        |k: K| exists|i: int| 0 <= i < s.len() && s[i].0 == k,
        |k: K| s[choose|i: int| 0 <= i < s.len() && s[i].0 == k].1,
    )
}

proof fn lemma_assoc_map_at<K, V>(s: Seq<(K, V)>, i: int)
    requires
        keys_distinct(s),
        0 <= i < s.len(),
    ensures
        assoc_map(s).contains_key(s[i].0),
        assoc_map(s)[s[i].0] == s[i].1,
{
    let k = s[i].0;
    assert(exists|j: int| 0 <= j < s.len() && s[j].0 == k);
    let j = choose|j: int| 0 <= j < s.len() && s[j].0 == k;
    if j != i {
        if j < i {
            assert(s[j].0 != s[i].0);
        } else {
            assert(s[i].0 != s[j].0);
        }
    }
}

/// The map after replacing entry `j` (whose key is `k`) by `(k, v)` is the map with `k` set to `v`.
proof fn lemma_assoc_map_update<K, V>(s: Seq<(K, V)>, j: int, v: V)
    requires
        keys_distinct(s),
        0 <= j < s.len(),
    ensures
        keys_distinct(s.update(j, (s[j].0, v))),
        assoc_map(s.update(j, (s[j].0, v))) == assoc_map(s).insert(s[j].0, v),
{
    let t = s.update(j, (s[j].0, v));
    assert(keys_distinct(t));
    assert forall|k: K| #[trigger] assoc_map(t).contains_key(k) == assoc_map(s).insert(s[j].0, v).contains_key(k) by {
        if exists|i: int| 0 <= i < s.len() && s[i].0 == k {
            let i = choose|i: int| 0 <= i < s.len() && s[i].0 == k;
            assert(t[i].0 == k);
        }
        if exists|i: int| 0 <= i < t.len() && t[i].0 == k {
            let i = choose|i: int| 0 <= i < t.len() && t[i].0 == k;
            assert(s[i].0 == k);
        }
    }
    assert forall|k: K| #[trigger] assoc_map(t).contains_key(k) implies assoc_map(t)[k] == assoc_map(s).insert(s[j].0, v)[k] by {
        let i = choose|i: int| 0 <= i < t.len() && t[i].0 == k;
        lemma_assoc_map_at(t, i);
        if i != j {
            lemma_assoc_map_at(s, i);
        }
    }
    assert(assoc_map(t) =~= assoc_map(s).insert(s[j].0, v));
}

/// Appending an entry with a new key adds that key.
proof fn lemma_assoc_map_push<K, V>(s: Seq<(K, V)>, k: K, v: V)
    requires
        keys_distinct(s),
        forall|i: int| 0 <= i < s.len() ==> s[i].0 != k,
    ensures
        keys_distinct(s.push((k, v))),
        assoc_map(s.push((k, v))) == assoc_map(s).insert(k, v),
{
    let t = s.push((k, v));
    assert(keys_distinct(t));
    assert forall|q: K| #[trigger] assoc_map(t).contains_key(q) == assoc_map(s).insert(k, v).contains_key(q) by {
        if exists|i: int| 0 <= i < s.len() && s[i].0 == q {
            let i = choose|i: int| 0 <= i < s.len() && s[i].0 == q;
            assert(t[i].0 == q);
        }
        if q == k {
            assert(t[s.len() as int].0 == q);
        }
    }
    assert forall|q: K| #[trigger] assoc_map(t).contains_key(q) implies assoc_map(t)[q] == assoc_map(s).insert(k, v)[q] by {
        let i = choose|i: int| 0 <= i < t.len() && t[i].0 == q;
        lemma_assoc_map_at(t, i);
        if i < s.len() {
            lemma_assoc_map_at(s, i);
        }
    }
    assert(assoc_map(t) =~= assoc_map(s).insert(k, v));
}

/// Label names to instruction offsets.
pub struct LabelOffsets {
    entries: Vec<(String, u32)>,
}

impl LabelOffsets {
    /// The entries, as (name, offset) pairs.
    pub closed spec fn entries(&self) -> Seq<(Seq<char>, u32)> {
        self.entries@.map_values(|e: (String, u32)| (e.0@, e.1))
    }

    pub open spec fn view(&self) -> Map<Seq<char>, u32> {
        assoc_map(self.entries())
    }

    #[verifier::type_invariant]
    closed spec fn inv(&self) -> bool {
        keys_distinct(self.entries())
    }

    pub fn new() -> (m: Self)
        ensures
            m@ == Map::<Seq<char>, u32>::empty(),
            m.entries().len() == 0,
    {
        let m = LabelOffsets { entries: Vec::new() };
        assert(m@ =~= Map::<Seq<char>, u32>::empty());
        m
    }

    pub fn len(&self) -> (n: usize)
        ensures
            n == self.entries().len(),
            keys_distinct(self.entries()),
    {
        proof {
            use_type_invariant(self);
        }
        self.entries.len()
    }

    /// The `i`-th entry.
    pub fn entry(&self, i: usize) -> (e: (&String, u32))
        requires
            i < self.entries().len(),
        ensures
            e.0@ == self.entries()[i as int].0,
            e.1 == self.entries()[i as int].1,
            self@.contains_key(e.0@),
            self@[e.0@] == e.1,
    {
        proof {
            use_type_invariant(self);
            lemma_assoc_map_at(self.entries(), i as int);
        }
        (&self.entries[i].0, self.entries[i].1)
    }

    /// Every entry is in the map with its value, and the map has no other keys.
    pub proof fn lemma_entries(&self)
        requires
            keys_distinct(self.entries()),
        ensures
            keys_distinct(self.entries()),
            forall|i: int| 0 <= i < self.entries().len() ==> #[trigger] self@.contains_key(self.entries()[i].0)
                && self@[self.entries()[i].0] == self.entries()[i].1,
            forall|k: Seq<char>| #[trigger] self@.contains_key(k) <==> exists|i: int| 0 <= i < self.entries().len()
                && self.entries()[i].0 == k,
    {
        assert forall|i: int| 0 <= i < self.entries().len() implies #[trigger] self@.contains_key(self.entries()[i].0)
            && self@[self.entries()[i].0] == self.entries()[i].1 by {
            lemma_assoc_map_at(self.entries(), i);
        }
    }

    /// Insert or replace the offset of `label`.
    pub fn insert(&mut self, label: String, offset: u32)
        ensures
            final(self)@ == old(self)@.insert(label@, offset),
    {
        proof {
            use_type_invariant(&*self);
        }
        let ghost s = self.entries();
        let ghost name = label@;
        let mut entries: Vec<(String, u32)> = Vec::new();
        std::mem::swap(&mut entries, &mut self.entries);
        assert(entries@.map_values(|e: (String, u32)| (e.0@, e.1)) == s);
        let mut i: usize = 0;
        while i < entries.len()
            invariant
                i <= entries@.len(),
                entries@.map_values(|e: (String, u32)| (e.0@, e.1)) == s,
                forall|j: int| 0 <= j < i ==> #[trigger] s[j].0 != name,
                name == label@,
                keys_distinct(s),
                s == old(self).entries(),
            decreases entries@.len() - i,
        {
            if entries[i].0 == label {
                proof {
                    lemma_assoc_map_update(s, i as int, offset);
                }
                assert(s[i as int].0 == name);
                entries.set(i, (label, offset));
                assert(entries@.map_values(|e: (String, u32)| (e.0@, e.1)) =~= s.update(i as int, (s[i as int].0, offset)));
                self.entries = entries;
                assert(self.entries() == s.update(i as int, (s[i as int].0, offset)));
                assert(old(self)@ == assoc_map(s));
                return;
            }
            i = i + 1;
        }
        proof {
            lemma_assoc_map_push(s, name, offset);
        }
        entries.push((label, offset));
        assert(entries@.map_values(|e: (String, u32)| (e.0@, e.1)) =~= s.push((name, offset)));
        self.entries = entries;
    }

    /// The offset of `label`, if it has one.
    pub fn get(&self, label: &String) -> (r: Option<u32>)
        ensures
            r == self@.get(label@),
    {
        proof {
            use_type_invariant(self);
            self.lemma_entries();
        }
        let mut i: usize = 0;
        while i < self.entries.len()
            invariant
                i <= self.entries@.len(),
                forall|j: int| 0 <= j < i ==> #[trigger] self.entries()[j].0 != label@,
                keys_distinct(self.entries()),
            decreases self.entries@.len() - i,
        {
            if self.entries[i].0 == *label {
                proof {
                    lemma_assoc_map_at(self.entries(), i as int);
                }
                return Some(self.entries[i].1);
            }
            i = i + 1;
        }
        assert(!self@.contains_key(label@));
        None
    }

    /// Add `delta` to every offset.
    pub fn add_to_all(&mut self, delta: u32)
        requires
            forall|k: Seq<char>| #[trigger] old(self)@.contains_key(k) ==> old(self)@[k] + delta <= u32::MAX,
        ensures
            final(self)@ == Map::new(|k: Seq<char>| old(self)@.contains_key(k), |k: Seq<char>| (old(self)@[k] + delta) as u32),
            final(self).entries().len() == old(self).entries().len(),
    {
        proof {
            use_type_invariant(&*self);
            self.lemma_entries();
        }
        let ghost s0 = self.entries();
        assert(old(self)@ == assoc_map(s0));
        assert forall|j: int| 0 <= j < s0.len() implies s0[j].1 + delta <= u32::MAX by {
            lemma_assoc_map_at(s0, j);
            assert(old(self)@.contains_key(s0[j].0));
        }
        let mut entries: Vec<(String, u32)> = Vec::new();
        std::mem::swap(&mut entries, &mut self.entries);
        let mut i: usize = 0;
        while i < entries.len()
            invariant
                i <= entries@.len(),
                entries@.len() == s0.len(),
                keys_distinct(s0),
                forall|j: int| 0 <= j < s0.len() ==> #[trigger] entries@[j].0@ == s0[j].0,
                forall|j: int| 0 <= j < i ==> #[trigger] entries@[j].1 == (s0[j].1 + delta) as u32,
                forall|j: int| i <= j < s0.len() ==> #[trigger] entries@[j].1 == s0[j].1,
                forall|j: int| 0 <= j < s0.len() ==> s0[j].1 + delta <= u32::MAX,
            decreases entries@.len() - i,
        {
            let name = entries[i].0.clone();
            let offset = entries[i].1;
            entries.set(i, (name, offset + delta));
            i = i + 1;
        }
        assert forall|i: int, j: int| 0 <= i < j < entries@.len() implies entries@[i].0@ != entries@[j].0@ by {
            assert(s0[i].0 != s0[j].0);
        }
        self.entries = entries;
        proof {
            let m = Map::new(|k: Seq<char>| old(self)@.contains_key(k), |k: Seq<char>| (old(self)@[k] + delta) as u32);
            assert(keys_distinct(self.entries()));
            assert forall|k: Seq<char>| #[trigger] self@.contains_key(k) == m.contains_key(k) by {
                if exists|j: int| 0 <= j < s0.len() && s0[j].0 == k {
                    let j = choose|j: int| 0 <= j < s0.len() && s0[j].0 == k;
                    assert(self.entries()[j].0 == k);
                }
                if exists|j: int| 0 <= j < s0.len() && self.entries()[j].0 == k {
                    let j = choose|j: int| 0 <= j < s0.len() && self.entries()[j].0 == k;
                    assert(s0[j].0 == k);
                }
            }
            assert forall|k: Seq<char>| #[trigger] self@.contains_key(k) implies self@[k] == m[k] by {
                let j = choose|j: int| 0 <= j < self.entries().len() && self.entries()[j].0 == k;
                lemma_assoc_map_at(self.entries(), j);
                lemma_assoc_map_at(s0, j);
            }
            assert(self@ =~= m);
        }
    }
}

/// Call sites (instruction indices) to the labels they call.
pub struct LabelCalls {
    entries: Vec<(u32, String)>,
}

impl LabelCalls {
    /// The entries, as (call site, name) pairs.
    pub closed spec fn entries(&self) -> Seq<(u32, Seq<char>)> {
        self.entries@.map_values(|e: (u32, String)| (e.0, e.1@))
    }

    pub open spec fn view(&self) -> Map<u32, Seq<char>> {
        assoc_map(self.entries())
    }

    #[verifier::type_invariant]
    closed spec fn inv(&self) -> bool {
        keys_distinct(self.entries())
    }

    pub fn new() -> (m: Self)
        ensures
            m@ == Map::<u32, Seq<char>>::empty(),
            m.entries().len() == 0,
    {
        let m = LabelCalls { entries: Vec::new() };
        assert(m@ =~= Map::<u32, Seq<char>>::empty());
        m
    }

    pub fn len(&self) -> (n: usize)
        ensures
            n == self.entries().len(),
            keys_distinct(self.entries()),
    {
        proof {
            use_type_invariant(self);
        }
        self.entries.len()
    }

    /// The `i`-th entry.
    pub fn entry(&self, i: usize) -> (e: (u32, &String))
        requires
            i < self.entries().len(),
        ensures
            e.0 == self.entries()[i as int].0,
            e.1@ == self.entries()[i as int].1,
            self@.contains_key(e.0),
            self@[e.0] == e.1@,
    {
        proof {
            use_type_invariant(self);
            lemma_assoc_map_at(self.entries(), i as int);
        }
        (self.entries[i].0, &self.entries[i].1)
    }

    /// Insert or replace the label called at `site`.
    pub fn insert(&mut self, site: u32, label: String)
        ensures
            final(self)@ == old(self)@.insert(site, label@),
    {
        proof {
            use_type_invariant(&*self);
        }
        let ghost s = self.entries();
        let ghost name = label@;
        let mut entries: Vec<(u32, String)> = Vec::new();
        std::mem::swap(&mut entries, &mut self.entries);
        assert(entries@.map_values(|e: (u32, String)| (e.0, e.1@)) == s);
        let mut i: usize = 0;
        while i < entries.len()
            invariant
                i <= entries@.len(),
                entries@.map_values(|e: (u32, String)| (e.0, e.1@)) == s,
                forall|j: int| 0 <= j < i ==> #[trigger] s[j].0 != site,
                name == label@,
                keys_distinct(s),
                s == old(self).entries(),
            decreases entries@.len() - i,
        {
            if entries[i].0 == site {
                proof {
                    lemma_assoc_map_update(s, i as int, name);
                }
                entries.set(i, (site, label));
                assert(entries@.map_values(|e: (u32, String)| (e.0, e.1@)) =~= s.update(i as int, (s[i as int].0, name)));
                self.entries = entries;
                assert(self.entries() == s.update(i as int, (s[i as int].0, name)));
                return;
            }
            i = i + 1;
        }
        proof {
            lemma_assoc_map_push(s, site, name);
        }
        entries.push((site, label));
        assert(entries@.map_values(|e: (u32, String)| (e.0, e.1@)) =~= s.push((site, name)));
        self.entries = entries;
    }

    /// The label called at `site`, if any.
    pub fn get(&self, site: u32) -> (r: Option<&String>)
        ensures
            r.is_some() == self@.contains_key(site),
            r matches Some(name) ==> name@ == self@[site],
    {
        proof {
            use_type_invariant(self);
        }
        let mut i: usize = 0;
        while i < self.entries.len()
            invariant
                i <= self.entries@.len(),
                forall|j: int| 0 <= j < i ==> #[trigger] self.entries()[j].0 != site,
                keys_distinct(self.entries()),
            decreases self.entries@.len() - i,
        {
            if self.entries[i].0 == site {
                proof {
                    lemma_assoc_map_at(self.entries(), i as int);
                }
                return Some(&self.entries[i].1);
            }
            i = i + 1;
        }
        None
    }

    /// Add `delta` to every call site.
    pub fn shift_sites(&mut self, delta: u32)
        requires
            forall|k: u32| #[trigger] old(self)@.contains_key(k) ==> k + delta <= u32::MAX,
        ensures
            final(self)@ == Map::new(
                |k: u32| k >= delta && old(self)@.contains_key((k - delta) as u32),
                |k: u32| old(self)@[(k - delta) as u32],
            ),
    {
        proof {
            use_type_invariant(&*self);
        }
        let ghost s0 = self.entries();
        assert(old(self)@ == assoc_map(s0));
        assert forall|j: int| 0 <= j < s0.len() implies s0[j].0 + delta <= u32::MAX by {
            lemma_assoc_map_at(s0, j);
            assert(old(self)@.contains_key(s0[j].0));
        }
        let mut entries: Vec<(u32, String)> = Vec::new();
        std::mem::swap(&mut entries, &mut self.entries);
        let mut i: usize = 0;
        while i < entries.len()
            invariant
                i <= entries@.len(),
                entries@.len() == s0.len(),
                keys_distinct(s0),
                forall|j: int| 0 <= j < s0.len() ==> #[trigger] entries@[j].1@ == s0[j].1,
                forall|j: int| 0 <= j < i ==> #[trigger] entries@[j].0 == (s0[j].0 + delta) as u32,
                forall|j: int| i <= j < s0.len() ==> #[trigger] entries@[j].0 == s0[j].0,
                forall|j: int| 0 <= j < s0.len() ==> s0[j].0 + delta <= u32::MAX,
            decreases entries@.len() - i,
        {
            let name = entries[i].1.clone();
            let site = entries[i].0;
            entries.set(i, (site + delta, name));
            i = i + 1;
        }
        assert forall|i: int, j: int| 0 <= i < j < entries@.len() implies entries@[i].0 != entries@[j].0 by {
            assert(s0[i].0 != s0[j].0);
        }
        self.entries = entries;
        proof {
            let m = Map::new(
                |k: u32| k >= delta && old(self)@.contains_key((k - delta) as u32),
                |k: u32| old(self)@[(k - delta) as u32],
            );
            assert forall|k: u32| #[trigger] self@.contains_key(k) == m.contains_key(k) by {
                if exists|j: int| 0 <= j < s0.len() && s0[j].0 == (k - delta) as u32 {
                    let j = choose|j: int| 0 <= j < s0.len() && s0[j].0 == (k - delta) as u32;
                    if k >= delta {
                        assert(self.entries()[j].0 == k);
                    }
                }
                if exists|j: int| 0 <= j < s0.len() && self.entries()[j].0 == k {
                    let j = choose|j: int| 0 <= j < s0.len() && self.entries()[j].0 == k;
                    assert(s0[j].0 == (k - delta) as u32);
                }
            }
            assert forall|k: u32| #[trigger] self@.contains_key(k) implies self@[k] == m[k] by {
                let j = choose|j: int| 0 <= j < self.entries().len() && self.entries()[j].0 == k;
                lemma_assoc_map_at(self.entries(), j);
                lemma_assoc_map_at(s0, j);
            }
            assert(self@ =~= m);
        }
    }
}

} // verus!
