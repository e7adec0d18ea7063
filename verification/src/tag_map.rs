//! The type-indexed backing store shared by both registries: values keyed by
//! an integer type tag, with pairwise-distinct tags.

use vstd::prelude::*;

verus! {

/// True when the tags of `s` are pairwise distinct.
pub open spec fn unique_tags<V>(s: Seq<(u64, V)>) -> bool {
    forall|i: int, j: int| 0 <= i < j < s.len() ==> s[i].0 != s[j].0
}

/// The map holding exactly the pairs of `s`.  Which occurrence of a
/// repeated tag is exposed is left open; the store below never creates one.
pub open spec fn seq_to_map<V>(s: Seq<(u64, V)>) -> Map<u64, V> {
    Map::new(
        |tag: u64| exists|i: int| 0 <= i < s.len() && s[i].0 == tag,
        |tag: u64| s[choose|i: int| 0 <= i < s.len() && s[i].0 == tag].1,
    )
}

/// True when `after` and `before` hold the same entries at every tag but
/// `tag` itself.
pub open spec fn agrees_except<V>(after: Map<u64, V>, before: Map<u64, V>, tag: u64) -> bool {
    &&& forall|t: u64| t != tag ==> #[trigger] after.contains_key(t) == before.contains_key(t)
    &&& forall|t: u64| t != tag && before.contains_key(t) ==> #[trigger] after[t] == before[t]
}

/// Two positions holding the same tag must be the same position.
proof fn lemma_unique_same_tag<V>(s: Seq<(u64, V)>, i: int, j: int)
    requires
        unique_tags(s),
        0 <= i < s.len(),
        0 <= j < s.len(),
        s[i].0 == s[j].0,
    ensures
        i == j,
{
    if i < j {
        assert(s[i].0 != s[j].0);
    } else if j < i {
        assert(s[j].0 != s[i].0);
    }
}

/// The pair at any position of a store with distinct tags is what the map
/// holds for its tag.
proof fn lemma_map_at<V>(s: Seq<(u64, V)>, i: int)
    requires
        unique_tags(s),
        0 <= i < s.len(),
    ensures
        seq_to_map(s).contains_key(s[i].0),
        seq_to_map(s)[s[i].0] == s[i].1,
{
    let tag = s[i].0;
    assert(exists|k: int| 0 <= k < s.len() && s[k].0 == tag) by {
        assert(0 <= i < s.len() && s[i].0 == tag);
    }
    let j = choose|k: int| 0 <= k < s.len() && s[k].0 == tag;
    lemma_unique_same_tag(s, i, j);
}

/// Appending a pair with a fresh tag inserts it into the map.
proof fn lemma_push_new<V>(s: Seq<(u64, V)>, tag: u64, value: V)
    requires
        unique_tags(s),
        forall|k: int| 0 <= k < s.len() ==> s[k].0 != tag,
    ensures
        unique_tags(s.push((tag, value))),
        seq_to_map(s.push((tag, value))) == seq_to_map(s).insert(tag, value),
{
    let s2 = s.push((tag, value));
    assert(s2.len() == s.len() + 1);
    assert(forall|k: int| 0 <= k < s.len() ==> s2[k] == s[k]);
    assert(s2[s.len() as int] == (tag, value));
    assert forall|t: u64| #[trigger] seq_to_map(s2).contains_key(t) implies
        seq_to_map(s).insert(tag, value).contains_key(t) by {
        let k = choose|k: int| 0 <= k < s2.len() && s2[k].0 == t;
        if k < s.len() {
            assert(s[k].0 == t);
        }
    }
    assert forall|t: u64| #[trigger] seq_to_map(s).insert(tag, value).contains_key(t) implies
        seq_to_map(s2).contains_key(t) by {
        if t == tag {
            assert(s2[s.len() as int].0 == t);
        } else {
            let k = choose|k: int| 0 <= k < s.len() && s[k].0 == t;
            assert(s2[k].0 == t);
        }
    }
    assert forall|t: u64| seq_to_map(s2).contains_key(t) implies
        #[trigger] seq_to_map(s2)[t] == seq_to_map(s).insert(tag, value)[t] by {
        let k = choose|k: int| 0 <= k < s2.len() && s2[k].0 == t;
        assert(0 <= k < s2.len() && s2[k].0 == t);
        if t == tag {
            lemma_unique_same_tag(s2, k, s.len() as int);
            assert(seq_to_map(s2)[t] == value);
        } else {
            assert(k < s.len());
            assert(s[k].0 == t);
            lemma_map_at(s, k);
            lemma_unique_same_tag(s2, k, choose|m: int| 0 <= m < s2.len() && s2[m].0 == t);
            assert(seq_to_map(s2)[t] == s[k].1);
        }
    }
    assert(seq_to_map(s2) =~= seq_to_map(s).insert(tag, value));
}

/// Replacing the value at a position rewrites the map at that tag alone.
proof fn lemma_update_value<V>(s: Seq<(u64, V)>, i: int, value: V)
    requires
        unique_tags(s),
        0 <= i < s.len(),
    ensures
        unique_tags(s.update(i, (s[i].0, value))),
        seq_to_map(s.update(i, (s[i].0, value))) == seq_to_map(s).insert(s[i].0, value),
{
    let tag = s[i].0;
    let s2 = s.update(i, (tag, value));
    assert(s2.len() == s.len());
    assert(forall|k: int| 0 <= k < s.len() ==> s2[k].0 == s[k].0);
    assert(s2[i].1 == value);
    assert forall|t: u64| #[trigger] seq_to_map(s2).contains_key(t) ==
        seq_to_map(s).insert(tag, value).contains_key(t) by {
        if seq_to_map(s2).contains_key(t) {
            let k = choose|k: int| 0 <= k < s2.len() && s2[k].0 == t;
            assert(s[k].0 == t);
        }
        if seq_to_map(s).insert(tag, value).contains_key(t) {
            if t == tag {
                assert(s2[i].0 == t);
            } else {
                let k = choose|k: int| 0 <= k < s.len() && s[k].0 == t;
                assert(s2[k].0 == t);
            }
        }
    }
    assert forall|t: u64| seq_to_map(s2).contains_key(t) implies
        #[trigger] seq_to_map(s2)[t] == seq_to_map(s).insert(tag, value)[t] by {
        let k = choose|k: int| 0 <= k < s2.len() && s2[k].0 == t;
        assert(0 <= k < s2.len() && s2[k].0 == t);
        if t == tag {
            lemma_unique_same_tag(s2, k, i);
            assert(seq_to_map(s2)[t] == value);
        } else {
            assert(k != i);
            assert(s[k].0 == t);
            assert(s2[k].1 == s[k].1);
            lemma_map_at(s, k);
            lemma_unique_same_tag(s2, k, choose|m: int| 0 <= m < s2.len() && s2[m].0 == t);
            assert(seq_to_map(s2)[t] == s2[k].1);
        }
    }
    assert(seq_to_map(s2) =~= seq_to_map(s).insert(tag, value));
}

/// Values keyed by a `u64` type tag.  Both registries keep their type-erased
/// entries in one of these; its view is the mathematical map from tag to
/// value.
pub struct TagMap<V> {
    items: Vec<(u64, V)>,
}

impl<V> View for TagMap<V> {
    type V = Map<u64, V>;

    closed spec fn view(&self) -> Map<u64, V> {
        seq_to_map(self.items@)
    }
}

impl<V> TagMap<V> {
    /// The stored pairs, in insertion order.
    pub closed spec fn entries(&self) -> Seq<(u64, V)> {
        self.items@
    }

    /// Valid state: tags are pairwise distinct.
    pub open spec fn wf(&self) -> bool {
        unique_tags(self.entries())
    }

    pub fn new() -> (map: Self)
        ensures
            map.wf(),
            map@ == Map::<u64, V>::empty(),
    {
        let map = TagMap { items: Vec::new() };
        proof {
            assert(map@ =~= Map::<u64, V>::empty());
        }
        map
    }

    /// The position holding `tag`, if any.
    fn position(&self, tag: u64) -> (r: Option<usize>)
        ensures
            match r {
                Some(i) => i < self.entries().len() && self.entries()[i as int].0 == tag,
                None => forall|k: int| 0 <= k < self.entries().len() ==> self.entries()[k].0 != tag,
            },
    {
        let mut i: usize = 0;
        while i < self.items.len()
            invariant
                i <= self.items.len(),
                forall|k: int| 0 <= k < i ==> self.items@[k].0 != tag,
            decreases self.items.len() - i,
        {
            if self.items[i].0 == tag {
                return Some(i);
            }
            i = i + 1;
        }
        None
    }

    pub fn contains(&self, tag: u64) -> (present: bool)
        requires
            self.wf(),
        ensures
            present == self@.contains_key(tag),
    {
        match self.position(tag) {
            Some(i) => {
                proof {
                    lemma_map_at(self.items@, i as int);
                }
                true
            },
            None => false,
        }
    }

    pub fn get(&self, tag: u64) -> (r: Option<&V>)
        requires
            self.wf(),
        ensures
            match r {
                Some(value) => self@.contains_key(tag) && *value == self@[tag],
                None => !self@.contains_key(tag),
            },
    {
        match self.position(tag) {
            Some(i) => {
                proof {
                    lemma_map_at(self.items@, i as int);
                }
                Some(&self.items[i].1)
            },
            None => None,
        }
    }

    pub fn get_mut(&mut self, tag: u64) -> (r: Option<&mut V>)
        requires
            old(self).wf(),
        ensures
            match r {
                Some(value) => {
                    &&& old(self)@.contains_key(tag)
                    &&& *value == old(self)@[tag]
                    &&& final(self).wf()
                    &&& final(self)@ == old(self)@.insert(tag, *final(value))
                },
                None => !old(self)@.contains_key(tag) && *final(self) == *old(self),
            },
    {
        match self.position(tag) {
            Some(i) => {
                proof {
                    lemma_map_at(self.items@, i as int);
                }
                let ghost stored = self.items@;
                let element = &mut self.items[i];
                let value = &mut element.1;
                proof {
                    lemma_update_value(stored, i as int, *final(value));
                }
                Some(value)
            },
            None => None,
        }
    }

    /// Stores `value` under `tag`, replacing any prior value for that tag.
    pub fn set(&mut self, tag: u64, value: V)
        requires
            old(self).wf(),
        ensures
            final(self).wf(),
            final(self)@ == old(self)@.insert(tag, value),
    {
        match self.position(tag) {
            Some(i) => {
                proof {
                    lemma_update_value(self.items@, i as int, value);
                }
                let element = &mut self.items[i];
                element.1 = value;
            },
            None => {
                proof {
                    lemma_push_new(self.items@, tag, value);
                }
                self.items.push((tag, value));
            },
        }
    }
}

} // verus!
