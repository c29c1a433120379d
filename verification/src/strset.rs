use vstd::prelude::*;
use crate::text::{chars_less, lemma_chars_less_irreflexive, lemma_chars_less_total, lemma_chars_less_transitive, string_less};

verus! {

/// The characters of each string of `s`.
pub open spec fn char_seqs(s: Seq<String>) -> Seq<Seq<char>> {
    s.map_values(|x: String| x@)
}

/// Every element of `s` comes strictly before the next one.
pub open spec fn strictly_ascending(s: Seq<Seq<char>>) -> bool {
    forall|i: int, j: int| 0 <= i < j < s.len() ==> chars_less(#[trigger] s[i], #[trigger] s[j])
}

/// A set of strings kept in ascending order, without repetition, as a
/// `BTreeSet<String>` keeps its elements.
#[derive(Debug)]
pub struct StrSet {
    items: Vec<String>,
}

impl View for StrSet {
    type V = Set<Seq<char>>;

    closed spec fn view(&self) -> Set<Seq<char>> {
        char_seqs(self.items@).to_set()
    }
}

impl StrSet {
    #[verifier::type_invariant]
    closed spec fn wf(self) -> bool {
        strictly_ascending(char_seqs(self.items@))
    }

    /// The elements in ascending order.
    pub closed spec fn listing(&self) -> Seq<Seq<char>> {
        char_seqs(self.items@)
    }

    pub fn new() -> (s: Self)
        ensures
            s@ == Set::<Seq<char>>::empty(),
            s.listing().len() == 0,
    {
        let s = StrSet { items: Vec::new() };
        assert(char_seqs(s.items@).to_set() =~= Set::<Seq<char>>::empty());
        s
    }

    pub fn contains(&self, key: &String) -> (b: bool)
        ensures
            b == self@.contains(key@),
    {
        let mut i: usize = 0;
        while i < self.items.len()
            invariant
                i <= self.items@.len(),
                forall|j: int| 0 <= j < i ==> #[trigger] self.items@[j]@ != key@,
            decreases self.items@.len() - i,
        {
            if self.items[i] == *key {
                assert(char_seqs(self.items@)[i as int] == key@);
                return true;
            }
            i = i + 1;
        }
        assert forall|x: Seq<char>| char_seqs(self.items@).contains(x) implies x != key@ by {
            let j = choose|j: int| 0 <= j < char_seqs(self.items@).len() && char_seqs(self.items@)[j] == x;
            assert(self.items@[j]@ != key@);
        }
        false
    }

    /// Adds `key`; the set is unchanged when it already holds it.
    pub fn insert(&mut self, key: String)
        ensures
            final(self)@ == old(self)@.insert(key@),
    {
        proof {
            use_type_invariant(&*self);
        }
        let ghost old_seq = char_seqs(self.items@);
        let mut i: usize = 0;
        while i < self.items.len() && string_less(self.items[i].as_str(), key.as_str())
            invariant
                i <= self.items@.len(),
                old_seq == char_seqs(self.items@),
                strictly_ascending(old_seq),
                forall|j: int| 0 <= j < i ==> chars_less(#[trigger] old_seq[j], key@),
            decreases self.items@.len() - i,
        {
            i = i + 1;
        }
        if i < self.items.len() && self.items[i] == key {
            assert(old_seq[i as int] == key@);
            assert(old_seq.to_set().insert(key@) =~= old_seq.to_set());
            return;
        }
        proof {
            if i < old_seq.len() {
                lemma_chars_less_total(old_seq[i as int], key@);
            }
        }
        let mut items = Vec::new();
        std::mem::swap(&mut items, &mut self.items);
        items.insert(i, key);
        let ghost new_seq = char_seqs(items@);
        assert(new_seq =~= old_seq.insert(i as int, key@));
        assert forall|a: int, b: int| 0 <= a < b < new_seq.len() implies chars_less(
            #[trigger] new_seq[a],
            #[trigger] new_seq[b],
        ) by {
            if b < i {
            } else if a < i && b == i {
            } else if a < i && b > i {
                assert(new_seq[b] == old_seq[b - 1]);
            } else if a == i {
                assert(new_seq[b] == old_seq[b - 1]);
                if b - 1 > i {
                    assert(chars_less(old_seq[i as int], old_seq[b - 1]));
                    lemma_chars_less_transitive(key@, old_seq[i as int], old_seq[b - 1]);
                }
            } else {
                assert(new_seq[a] == old_seq[a - 1]);
                assert(new_seq[b] == old_seq[b - 1]);
            }
        }
        assert(new_seq.to_set() =~= old_seq.to_set().insert(key@)) by {
            assert forall|x: Seq<char>| new_seq.to_set().contains(x) <==> old_seq.to_set().insert(key@).contains(x) by {
                if new_seq.contains(x) {
                    let j = choose|j: int| 0 <= j < new_seq.len() && new_seq[j] == x;
                    if j < i {
                        assert(old_seq[j] == x);
                    } else if j > i {
                        assert(old_seq[j - 1] == x);
                    }
                }
                if old_seq.contains(x) {
                    let j = choose|j: int| 0 <= j < old_seq.len() && old_seq[j] == x;
                    if j < i {
                        assert(new_seq[j] == x);
                    } else {
                        assert(new_seq[j + 1] == x);
                    }
                }
                if x == key@ {
                    assert(new_seq[i as int] == x);
                }
            }
        }
        self.items = items;
    }

    /// Removes `key`, if the set holds it.
    pub fn remove(&mut self, key: &String)
        ensures
            final(self)@ == old(self)@.remove(key@),
    {
        proof {
            use_type_invariant(&*self);
        }
        let ghost old_seq = char_seqs(self.items@);
        let mut i: usize = 0;
        while i < self.items.len() && !(self.items[i] == *key)
            invariant
                i <= self.items@.len(),
                old_seq == char_seqs(self.items@),
                forall|j: int| 0 <= j < i ==> #[trigger] old_seq[j] != key@,
            decreases self.items@.len() - i,
        {
            i = i + 1;
        }
        if i == self.items.len() {
            assert(old_seq.to_set().remove(key@) =~= old_seq.to_set()) by {
                assert forall|x: Seq<char>| old_seq.contains(x) implies x != key@ by {
                    let j = choose|j: int| 0 <= j < old_seq.len() && old_seq[j] == x;
                }
            }
            return;
        }
        assert(old_seq[i as int] == key@);
        let mut items = Vec::new();
        std::mem::swap(&mut items, &mut self.items);
        items.remove(i);
        let ghost new_seq = char_seqs(items@);
        assert(new_seq =~= old_seq.remove(i as int));
        assert forall|a: int, b: int| 0 <= a < b < new_seq.len() implies chars_less(
            #[trigger] new_seq[a],
            #[trigger] new_seq[b],
        ) by {
            let a2 = if a < i { a } else { a + 1 };
            let b2 = if b < i { b } else { b + 1 };
            assert(new_seq[a] == old_seq[a2]);
            assert(new_seq[b] == old_seq[b2]);
        }
        assert(new_seq.to_set() =~= old_seq.to_set().remove(key@)) by {
            assert forall|x: Seq<char>| new_seq.to_set().contains(x) <==> old_seq.to_set().remove(key@).contains(x) by {
                if new_seq.contains(x) {
                    let j = choose|j: int| 0 <= j < new_seq.len() && new_seq[j] == x;
                    let j2 = if j < i { j } else { j + 1 };
                    assert(old_seq[j2] == x);
                    if x == key@ {
                        if j2 < i {
                            assert(chars_less(old_seq[j2], old_seq[i as int]));
                        } else {
                            assert(chars_less(old_seq[i as int], old_seq[j2]));
                        }
                        lemma_chars_less_irreflexive(x);
                    }
                }
                if old_seq.contains(x) && x != key@ {
                    let j = choose|j: int| 0 <= j < old_seq.len() && old_seq[j] == x;
                    if j < i {
                        assert(new_seq[j] == x);
                    } else {
                        assert(j != i);
                        assert(new_seq[j - 1] == x);
                    }
                }
            }
        }
        self.items = items;
    }

    /// The set has no element.
    pub fn is_empty(&self) -> (b: bool)
        ensures
            b == (self@ == Set::<Seq<char>>::empty()),
    {
        if self.items.len() == 0 {
            assert(char_seqs(self.items@).to_set() =~= Set::<Seq<char>>::empty());
            true
        } else {
            assert(char_seqs(self.items@)[0] == self.items@[0]@);
            assert(self@.contains(self.items@[0]@));
            false
        }
    }

    /// The elements in ascending order, as `BTreeSet::iter` yields them.
    pub fn to_vec(&self) -> (v: Vec<String>)
        ensures
            char_seqs(v@) == self.listing(),
            strictly_ascending(self.listing()),
            self.listing().to_set() == self@,
    {
        proof {
            use_type_invariant(self);
        }
        let mut v: Vec<String> = Vec::new();
        let mut i: usize = 0;
        while i < self.items.len()
            invariant
                i <= self.items@.len(),
                v@.len() == i,
                char_seqs(v@) == char_seqs(self.items@).take(i as int),
            decreases self.items@.len() - i,
        {
            let item = self.items[i].clone();
            assert(item@ == char_seqs(self.items@)[i as int]);
            let ghost prev = v@;
            v.push(item);
            assert forall|j: int| 0 <= j < i + 1 implies #[trigger] char_seqs(v@)[j] == char_seqs(self.items@)[j] by {
                if j < i {
                    assert(char_seqs(prev)[j] == char_seqs(self.items@).take(i as int)[j]);
                    assert(v@[j] == prev[j]);
                }
            }
            assert(char_seqs(v@) =~= char_seqs(self.items@).take(i + 1));
            i = i + 1;
        }
        assert(char_seqs(self.items@).take(i as int) =~= char_seqs(self.items@));
        v
    }
}

} // verus!
