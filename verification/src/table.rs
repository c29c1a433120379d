use vstd::prelude::*;

verus! {

/// The keys of `s` are pairwise distinct, compared by their characters.
pub open spec fn keys_unique<V>(s: Seq<(String, V)>) -> bool {
    forall|i: int, j: int|
        0 <= i < s.len() && 0 <= j < s.len() && i != j ==> #[trigger] s[i].0@ != #[trigger] s[j].0@
}

/// `k` is the key of some entry of `s`.
pub open spec fn has_key<V>(s: Seq<(String, V)>, k: Seq<char>) -> bool {
    exists|i: int| 0 <= i < s.len() && #[trigger] s[i].0@ == k
}

/// The index of an entry of `s` whose key is `k` (meaningful when `has_key(s, k)`).
pub open spec fn key_index<V>(s: Seq<(String, V)>, k: Seq<char>) -> int {
    choose|i: int| 0 <= i < s.len() && #[trigger] s[i].0@ == k
}

/// The map that a sequence of keyed entries stands for: each key to the view of its value.
pub open spec fn entries_map<V: View>(s: Seq<(String, V)>) -> Map<Seq<char>, V::V> {
    Map::new(|k: Seq<char>| has_key(s, k), |k: Seq<char>| s[key_index(s, k)].1@)
}

pub proof fn lemma_key_index_unique<V>(s: Seq<(String, V)>, i: int)
    requires
        keys_unique(s),
        0 <= i < s.len(),
    ensures
        has_key(s, s[i].0@),
        key_index(s, s[i].0@) == i,
{
    assert(s[i].0@ == s[i].0@);
    let j = key_index(s, s[i].0@);
    if j != i {
        assert(s[i].0@ != s[j].0@);
    }
}

pub proof fn lemma_entries_push<V: View>(s: Seq<(String, V)>, k: String, v: V)
    requires
        keys_unique(s),
        !has_key(s, k@),
    ensures
        keys_unique(s.push((k, v))),
        entries_map(s.push((k, v))) == entries_map(s).insert(k@, v@),
{
    let t = s.push((k, v));
    assert forall|i: int, j: int|
        0 <= i < t.len() && 0 <= j < t.len() && i != j implies #[trigger] t[i].0@ != #[trigger] t[j].0@ by {
        if i < s.len() && j < s.len() {
            assert(t[i] == s[i] && t[j] == s[j]);
        } else if i < s.len() {
            assert(t[i] == s[i]);
        } else {
            assert(t[j] == s[j]);
        }
    }
    assert forall|key: Seq<char>| has_key(t, key) <==> (has_key(s, key) || key == k@) by {
        if has_key(s, key) {
            let i = key_index(s, key);
            assert(t[i] == s[i]);
        }
        if key == k@ {
            assert(t[s.len() as int].0@ == k@);
        }
        if has_key(t, key) {
            let i = key_index(t, key);
            if i < s.len() {
                assert(t[i] == s[i]);
            }
        }
    }
    assert forall|key: Seq<char>| #[trigger] has_key(t, key) implies t[key_index(t, key)].1@ == (
    if key == k@ {
        v@
    } else {
        s[key_index(s, key)].1@
    }) by {
        let i = key_index(t, key);
        if key == k@ {
            lemma_key_index_unique(t, s.len() as int);
        } else {
            let j = key_index(s, key);
            assert(t[j] == s[j]);
            lemma_key_index_unique(t, j);
        }
    }
    assert(entries_map(t) =~= entries_map(s).insert(k@, v@));
}

pub proof fn lemma_entries_update<V: View>(s: Seq<(String, V)>, i: int, k: String, v: V)
    requires
        keys_unique(s),
        0 <= i < s.len(),
        k@ == s[i].0@,
    ensures
        keys_unique(s.update(i, (k, v))),
        entries_map(s.update(i, (k, v))) == entries_map(s).insert(k@, v@),
{
    let t = s.update(i, (k, v));
    assert forall|a: int, b: int|
        0 <= a < t.len() && 0 <= b < t.len() && a != b implies #[trigger] t[a].0@ != #[trigger] t[b].0@ by {
        assert(t[a].0@ == s[a].0@ && t[b].0@ == s[b].0@);
    }
    assert forall|key: Seq<char>| has_key(t, key) <==> has_key(s, key) by {
        if has_key(s, key) {
            let j = key_index(s, key);
            assert(t[j].0@ == s[j].0@);
        }
        if has_key(t, key) {
            let j = key_index(t, key);
            assert(t[j].0@ == s[j].0@);
        }
    }
    assert forall|key: Seq<char>| #[trigger] has_key(t, key) implies t[key_index(t, key)].1@ == (
    if key == k@ {
        v@
    } else {
        s[key_index(s, key)].1@
    }) by {
        let j = key_index(s, key);
        lemma_key_index_unique(s, j);
        lemma_key_index_unique(t, j);
    }
    lemma_key_index_unique(s, i);
    assert(entries_map(t) =~= entries_map(s).insert(k@, v@));
}

pub proof fn lemma_entries_remove<V: View>(s: Seq<(String, V)>, i: int)
    requires
        keys_unique(s),
        0 <= i < s.len(),
    ensures
        keys_unique(s.remove(i)),
        entries_map(s.remove(i)) == entries_map(s).remove(s[i].0@),
{
    let t = s.remove(i);
    let k = s[i].0@;
    assert forall|a: int| 0 <= a < t.len() implies #[trigger] t[a] == s[if a < i {
        a
    } else {
        a + 1
    }] by {}
    assert forall|a: int, b: int|
        0 <= a < t.len() && 0 <= b < t.len() && a != b implies #[trigger] t[a].0@ != #[trigger] t[b].0@ by {
        let a2 = if a < i {
            a
        } else {
            a + 1
        };
        let b2 = if b < i {
            b
        } else {
            b + 1
        };
        assert(t[a] == s[a2] && t[b] == s[b2]);
    }
    assert forall|key: Seq<char>| has_key(t, key) <==> (has_key(s, key) && key != k) by {
        if has_key(s, key) && key != k {
            let j = key_index(s, key);
            if j < i {
                assert(t[j] == s[j]);
            } else {
                assert(j != i);
                assert(t[j - 1] == s[j]);
            }
        }
        if has_key(t, key) {
            let j = key_index(t, key);
            let j2 = if j < i {
                j
            } else {
                j + 1
            };
            assert(t[j] == s[j2]);
            assert(s[j2].0@ != s[i].0@);
        }
    }
    assert forall|key: Seq<char>| #[trigger] has_key(t, key) implies t[key_index(t, key)].1@
        == s[key_index(s, key)].1@ by {
        let j = key_index(t, key);
        let j2 = if j < i {
            j
        } else {
            j + 1
        };
        assert(t[j] == s[j2]);
        lemma_key_index_unique(s, j2);
    }
    assert(entries_map(t) =~= entries_map(s).remove(k));
}

/// Walking distinct-keyed entries front to back: the first `i + 1` entries
/// stand for the map of the first `i` with the next entry added, whose key is new.
pub proof fn lemma_entries_prefix<V: View>(s: Seq<(String, V)>, i: int)
    requires
        keys_unique(s),
        0 <= i < s.len(),
    ensures
        keys_unique(s.take(i)),
        !entries_map(s.take(i)).contains_key(s[i].0@),
        entries_map(s.take(i + 1)) == entries_map(s.take(i)).insert(s[i].0@, s[i].1@),
{
    let p = s.take(i);
    assert forall|a: int, b: int|
        0 <= a < p.len() && 0 <= b < p.len() && a != b implies #[trigger] p[a].0@ != #[trigger] p[b].0@ by {
        assert(p[a] == s[a] && p[b] == s[b]);
    }
    if has_key(p, s[i].0@) {
        let j = key_index(p, s[i].0@);
        assert(p[j] == s[j]);
        assert(s[j].0@ != s[i].0@);
    }
    assert(s.take(i + 1) =~= p.push(s[i]));
    lemma_entries_push(p, s[i].0, s[i].1);
}

/// All the entries stand for the whole map.
pub proof fn lemma_entries_all<V: View>(s: Seq<(String, V)>)
    ensures
        entries_map(s.take(s.len() as int)) == entries_map(s),
        entries_map(s.take(0)) == Map::<Seq<char>, V::V>::empty(),
{
    assert(s.take(s.len() as int) =~= s);
    assert(entries_map(s.take(0)) =~= Map::<Seq<char>, V::V>::empty());
}

/// Two entry lists with the same keys in the same order stand for maps with
/// the same keys, each key's value taken from the same position.
pub proof fn lemma_entries_pointwise<V: View, W: View>(s: Seq<(String, V)>, t: Seq<(String, W)>)
    requires
        keys_unique(s),
        s.len() == t.len(),
        forall|i: int| 0 <= i < s.len() ==> #[trigger] t[i].0@ == s[i].0@,
    ensures
        keys_unique(t),
        entries_map(t).dom() == entries_map(s).dom(),
        forall|i: int| 0 <= i < s.len() ==> entries_map(s)[#[trigger] s[i].0@] == s[i].1@ && entries_map(t)[s[i].0@] == t[i].1@,
        forall|k: Seq<char>| #[trigger] entries_map(s).contains_key(k) ==> exists|i: int| 0 <= i < s.len() && #[trigger] s[i].0@ == k,
{
    assert forall|a: int, b: int|
        0 <= a < t.len() && 0 <= b < t.len() && a != b implies #[trigger] t[a].0@ != #[trigger] t[b].0@ by {
        assert(s[a].0@ != s[b].0@);
    }
    assert forall|k: Seq<char>| has_key(t, k) <==> has_key(s, k) by {
        if has_key(t, k) {
            let j = choose|j: int| 0 <= j < t.len() && #[trigger] t[j].0@ == k;
            assert(s[j].0@ == k);
        }
        if has_key(s, k) {
            let j = choose|j: int| 0 <= j < s.len() && #[trigger] s[j].0@ == k;
            assert(t[j].0@ == k);
        }
    }
    assert(entries_map(t).dom() =~= entries_map(s).dom());
    assert forall|i: int| 0 <= i < s.len() implies entries_map(s)[#[trigger] s[i].0@] == s[i].1@ && entries_map(t)[s[i].0@] == t[i].1@ by {
        lemma_key_index_unique(s, i);
        lemma_key_index_unique(t, i);
    }
    assert forall|k: Seq<char>| #[trigger] entries_map(s).contains_key(k) implies exists|i: int| 0 <= i < s.len() && #[trigger] s[i].0@ == k by {
        assert(has_key(s, k));
    }
}

/// A map from strings to values, kept as a list of entries with distinct keys.
#[derive(Debug)]
pub struct Table<V> {
    entries: Vec<(String, V)>,
}

impl<V: View> View for Table<V> {
    type V = Map<Seq<char>, V::V>;

    closed spec fn view(&self) -> Map<Seq<char>, V::V> {
        entries_map(self.entries@)
    }
}

impl<V> Table<V> {
    #[verifier::type_invariant]
    closed spec fn wf(self) -> bool {
        keys_unique(self.entries@)
    }
}

impl<V: View> Table<V> {
    /// The entries in their stored order.
    pub closed spec fn entries_seq(&self) -> Seq<(String, V)> {
        self.entries@
    }

    pub fn new() -> (t: Self)
        ensures
            t@ == Map::<Seq<char>, V::V>::empty(),
            t.entries_seq().len() == 0,
    {
        let t = Table { entries: Vec::new() };
        assert(entries_map(t.entries@) =~= Map::<Seq<char>, V::V>::empty());
        t
    }

    /// The table taken apart into its entries.
    pub fn into_entries(self) -> (r: Vec<(String, V)>)
        ensures
            r@ == self.entries_seq(),
            keys_unique(r@),
            entries_map(r@) == self@,
    {
        proof {
            use_type_invariant(&self);
        }
        self.entries
    }

    /// The table of entries whose keys are distinct.
    pub fn from_entries(entries: Vec<(String, V)>) -> (t: Self)
        requires
            keys_unique(entries@),
        ensures
            t@ == entries_map(entries@),
            t.entries_seq() == entries@,
    {
        Table { entries }
    }

    /// The entries, in their stored order; their keys are distinct and they
    /// stand for this table's map.
    pub fn entries(&self) -> (r: &Vec<(String, V)>)
        ensures
            r@ == self.entries_seq(),
            keys_unique(r@),
            entries_map(r@) == self@,
    {
        proof {
            use_type_invariant(self);
        }
        &self.entries
    }

    pub fn len(&self) -> (n: usize)
        ensures
            n == self.entries_seq().len(),
            n == 0 <==> self@ == Map::<Seq<char>, V::V>::empty(),
    {
        proof {
            use_type_invariant(self);
            if self.entries@.len() > 0 {
                lemma_key_index_unique(self.entries@, 0);
                assert(self@.contains_key(self.entries@[0].0@));
            } else {
                assert(self@ =~= Map::<Seq<char>, V::V>::empty());
            }
        }
        self.entries.len()
    }

    fn find(&self, key: &String) -> (r: Option<usize>)
        ensures
            match r {
                Some(i) => i < self.entries@.len() && self.entries@[i as int].0@ == key@,
                None => !has_key(self.entries@, key@),
            },
    {
        let mut i: usize = 0;
        while i < self.entries.len()
            invariant
                i <= self.entries@.len(),
                forall|j: int| 0 <= j < i ==> #[trigger] self.entries@[j].0@ != key@,
            decreases self.entries@.len() - i,
        {
            if self.entries[i].0 == *key {
                return Some(i);
            }
            i = i + 1;
        }
        None
    }

    pub fn contains_key(&self, key: &String) -> (b: bool)
        ensures
            b == self@.contains_key(key@),
    {
        self.find(key).is_some()
    }

    pub fn get(&self, key: &String) -> (r: Option<&V>)
        ensures
            r is Some == self@.contains_key(key@),
            r matches Some(v) ==> v@ == self@[key@],
    {
        proof {
            use_type_invariant(self);
        }
        match self.find(key) {
            Some(i) => {
                proof {
                    lemma_key_index_unique(self.entries@, i as int);
                }
                Some(&self.entries[i].1)
            },
            None => None,
        }
    }

    /// Sets the value of `key`, adding the key when it is new.
    pub fn insert(&mut self, key: String, value: V)
        ensures
            final(self)@ == old(self)@.insert(key@, value@),
    {
        proof {
            use_type_invariant(&*self);
        }
        match self.find(&key) {
            Some(i) => {
                proof {
                    lemma_entries_update(self.entries@, i as int, key, value);
                }
                let mut entries = Vec::new();
                std::mem::swap(&mut entries, &mut self.entries);
                entries.set(i, (key, value));
                self.entries = entries;
            },
            None => {
                proof {
                    lemma_entries_push(self.entries@, key, value);
                }
                let mut entries = Vec::new();
                std::mem::swap(&mut entries, &mut self.entries);
                entries.push((key, value));
                self.entries = entries;
            },
        }
    }

    /// Removes `key` and hands back its value, if it was there.
    pub fn remove(&mut self, key: &String) -> (r: Option<V>)
        ensures
            final(self)@ == old(self)@.remove(key@),
            r is Some == old(self)@.contains_key(key@),
            r matches Some(v) ==> v@ == old(self)@[key@],
    {
        proof {
            use_type_invariant(&*self);
        }
        match self.find(key) {
            Some(i) => {
                proof {
                    lemma_entries_remove(self.entries@, i as int);
                    lemma_key_index_unique(self.entries@, i as int);
                }
                let mut entries = Vec::new();
                std::mem::swap(&mut entries, &mut self.entries);
                let (_, v) = entries.remove(i);
                self.entries = entries;
                Some(v)
            },
            None => {
                proof {
                    assert(entries_map(self.entries@).remove(key@) =~= entries_map(self.entries@));
                }
                None
            },
        }
    }
}

/// A copy whose view equals that of the value copied.
pub trait Duplicate: View + Sized {
    fn duplicate(&self) -> (r: Self)
        ensures
            r@ == self@,
    ;
}

impl<V: Duplicate> Duplicate for Table<V> {
    /// A copy of the table, entry by entry.
    fn duplicate(&self) -> (r: Self) {
        proof {
            use_type_invariant(self);
        }
        let mut entries: Vec<(String, V)> = Vec::new();
        let mut i: usize = 0;
        while i < self.entries.len()
            invariant
                i <= self.entries@.len(),
                entries@.len() == i,
                keys_unique(self.entries@),
                forall|j: int| 0 <= j < i ==> (#[trigger] entries@[j]).0@ == self.entries@[j].0@
                    && entries@[j].1@ == self.entries@[j].1@,
            decreases self.entries@.len() - i,
        {
            let k = self.entries[i].0.clone();
            let v = self.entries[i].1.duplicate();
            entries.push((k, v));
            i = i + 1;
        }
        let ghost s = self.entries@;
        assert forall|a: int, b: int|
            0 <= a < entries@.len() && 0 <= b < entries@.len() && a != b implies #[trigger] entries@[a].0@
            != #[trigger] entries@[b].0@ by {
            assert(s[a].0@ != s[b].0@);
        }
        assert forall|k: Seq<char>| has_key(entries@, k) <==> has_key(s, k) by {
            if has_key(entries@, k) {
                let j = choose|j: int| 0 <= j < entries@.len() && #[trigger] entries@[j].0@ == k;
                assert(s[j].0@ == k);
            }
            if has_key(s, k) {
                let j = choose|j: int| 0 <= j < s.len() && #[trigger] s[j].0@ == k;
                assert(entries@[j].0@ == k);
            }
        }
        assert forall|k: Seq<char>| has_key(s, k) implies entries_map(entries@)[k] == entries_map(s)[k] by {
            let j = key_index(s, k);
            lemma_key_index_unique(s, j);
            lemma_key_index_unique(entries@, j);
        }
        assert(entries_map(entries@) =~= entries_map(s));
        Table { entries }
    }
}

} // verus!
