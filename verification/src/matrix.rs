//! The dependency matrix: one record for each ordered pair of activities.
//!
//! The matrix is a finite map from pairs of activity names to dependencies.
//! It is stored as a list of entries in which no pair occurs twice; the order
//! of that list carries no meaning.

use crate::dependency_types::dependency::Dependency;
use vstd::prelude::*;

verus! {

/// The name of a task of the process.
pub type Activity = String;

/// The model of a key of the matrix: the two activity names, as sequences of
/// characters.
pub type PairKey = (Seq<char>, Seq<char>);

/// One stored record: the pair of activities and what is known about it.
pub type Entry = ((Activity, Activity), Dependency);

/// The key under which an entry is stored.
pub open spec fn key_of(e: Entry) -> PairKey {
    (e.0.0@, e.0.1@)
}

/// No two entries of `s` are stored under the same key.
pub open spec fn distinct_keys(s: Seq<Entry>) -> bool {
    forall|i: int, j: int| 0 <= i < j < s.len() ==> key_of(#[trigger] s[i]) != key_of(#[trigger] s[j])
}

/// The map that a list of entries stands for. Where a key occurs twice the
/// later entry counts.
pub open spec fn entries_to_map(s: Seq<Entry>) -> Map<PairKey, Dependency>
    decreases s.len(),
{
    if s.len() == 0 {
        Map::empty()
    } else {
        entries_to_map(s.drop_last()).insert(key_of(s.last()), s.last().1)
    }
}

/// A key is in the map exactly when some entry is stored under it, and the
/// map is finite.
pub proof fn lemma_map_domain(s: Seq<Entry>)
    ensures
        entries_to_map(s).dom().finite(),
        forall|k: PairKey|
            entries_to_map(s).dom().contains(k) <==> exists|i: int|
                0 <= i < s.len() && key_of(#[trigger] s[i]) == k,
    decreases s.len(),
{
    if s.len() > 0 {
        let init = s.drop_last();
        lemma_map_domain(init);
        assert forall|k: PairKey|
            entries_to_map(s).dom().contains(k) <==> exists|i: int|
                0 <= i < s.len() && key_of(#[trigger] s[i]) == k by {
            if entries_to_map(s).dom().contains(k) {
                if k == key_of(s.last()) {
                    assert(key_of(s[s.len() - 1]) == k);
                } else {
                    let i = choose|i: int| 0 <= i < init.len() && key_of(#[trigger] init[i]) == k;
                    assert(key_of(s[i]) == k);
                }
            }
            if exists|i: int| 0 <= i < s.len() && key_of(#[trigger] s[i]) == k {
                let i = choose|i: int| 0 <= i < s.len() && key_of(#[trigger] s[i]) == k;
                if i < s.len() - 1 {
                    assert(key_of(init[i]) == k);
                }
            }
        }
    }
}

/// With distinct keys, each entry's dependency is what the map holds under
/// the entry's key.
pub proof fn lemma_map_value(s: Seq<Entry>, i: int)
    requires
        distinct_keys(s),
        0 <= i < s.len(),
    ensures
        entries_to_map(s).dom().contains(key_of(s[i])),
        entries_to_map(s)[key_of(s[i])] == s[i].1,
    decreases s.len(),
{
    if i < s.len() - 1 {
        let init = s.drop_last();
        assert(distinct_keys(init)) by {
            assert forall|a: int, b: int| 0 <= a < b < init.len() implies key_of(
                #[trigger] init[a],
            ) != key_of(#[trigger] init[b]) by {
                assert(key_of(s[a]) != key_of(s[b]));
            }
        }
        lemma_map_value(init, i);
        assert(key_of(s[i]) != key_of(s[s.len() - 1]));
    }
}

/// A prefix of a list with distinct keys has distinct keys.
pub proof fn lemma_distinct_prefix(s: Seq<Entry>, n: int)
    requires
        distinct_keys(s),
        0 <= n <= s.len(),
    ensures
        distinct_keys(s.take(n)),
{
    let t = s.take(n);
    assert forall|a: int, b: int| 0 <= a < b < t.len() implies key_of(#[trigger] t[a]) != key_of(
        #[trigger] t[b],
    ) by {
        assert(key_of(s[a]) != key_of(s[b]));
    }
}

/// With distinct keys, the map has as many keys as the list has entries.
pub proof fn lemma_map_len(s: Seq<Entry>)
    requires
        distinct_keys(s),
    ensures
        entries_to_map(s).dom().finite(),
        entries_to_map(s).len() == s.len(),
    decreases s.len(),
{
    lemma_map_domain(s);
    if s.len() > 0 {
        let init = s.drop_last();
        lemma_distinct_prefix(s, s.len() - 1);
        assert(init == s.take(s.len() - 1));
        lemma_map_len(init);
        lemma_map_domain(init);
        let k = key_of(s.last());
        if entries_to_map(init).dom().contains(k) {
            let i = choose|i: int| 0 <= i < init.len() && key_of(#[trigger] init[i]) == k;
            assert(key_of(s[i]) == key_of(s[s.len() - 1]));
        }
        assert(entries_to_map(s).dom() == entries_to_map(init).dom().insert(k));
    }
}

/// Two lists with distinct keys that hold the same entries, in whatever
/// order, stand for the same map.
pub proof fn lemma_permutation_same_map(s1: Seq<Entry>, s2: Seq<Entry>)
    requires
        distinct_keys(s1),
        distinct_keys(s2),
        s1.to_multiset() == s2.to_multiset(),
    ensures
        entries_to_map(s1) == entries_to_map(s2),
{
    let m1 = entries_to_map(s1);
    let m2 = entries_to_map(s2);
    lemma_map_domain(s1);
    lemma_map_domain(s2);
    s1.to_multiset_ensures();
    s2.to_multiset_ensures();
    assert forall|k: PairKey| #[trigger] m1.dom().contains(k) implies m2.dom().contains(k) && m2[k]
        == m1[k] by {
        let i = choose|i: int| 0 <= i < s1.len() && key_of(#[trigger] s1[i]) == k;
        assert(s1.contains(s1[i]));
        assert(s2.to_multiset().count(s1[i]) > 0);
        assert(s2.contains(s1[i]));
        let j = choose|j: int| 0 <= j < s2.len() && s2[j] == s1[i];
        lemma_map_value(s1, i);
        lemma_map_value(s2, j);
    }
    assert forall|k: PairKey| #[trigger] m2.dom().contains(k) implies m1.dom().contains(k) by {
        let j = choose|j: int| 0 <= j < s2.len() && key_of(#[trigger] s2[j]) == k;
        assert(s2.contains(s2[j]));
        assert(s1.to_multiset().count(s2[j]) > 0);
        assert(s1.contains(s2[j]));
        let i = choose|i: int| 0 <= i < s1.len() && s1[i] == s2[j];
        lemma_map_value(s1, i);
    }
    assert(m1.dom() =~= m2.dom());
    assert(m1 =~= m2);
}

/// Appending an entry under a key that is not yet stored adds it to the map.
pub proof fn lemma_map_push(s: Seq<Entry>, e: Entry)
    requires
        distinct_keys(s),
        forall|i: int| 0 <= i < s.len() ==> key_of(#[trigger] s[i]) != key_of(e),
    ensures
        distinct_keys(s.push(e)),
        entries_to_map(s.push(e)) == entries_to_map(s).insert(key_of(e), e.1),
{
    assert(s.push(e).drop_last() == s);
}

/// Replacing an entry by one with the same key replaces what the map holds
/// under that key.
pub proof fn lemma_map_update(s: Seq<Entry>, i: int, e: Entry)
    requires
        distinct_keys(s),
        0 <= i < s.len(),
        key_of(e) == key_of(s[i]),
    ensures
        distinct_keys(s.update(i, e)),
        entries_to_map(s.update(i, e)) == entries_to_map(s).insert(key_of(e), e.1),
{
    let t = s.update(i, e);
    assert(distinct_keys(t)) by {
        assert forall|a: int, b: int| 0 <= a < b < t.len() implies key_of(#[trigger] t[a])
            != key_of(#[trigger] t[b]) by {
            assert(key_of(t[a]) == key_of(s[a]));
            assert(key_of(t[b]) == key_of(s[b]));
        }
    }
    let m = entries_to_map(s).insert(key_of(e), e.1);
    let n = entries_to_map(t);
    lemma_map_domain(s);
    lemma_map_domain(t);
    assert forall|k: PairKey| #[trigger] n.dom().contains(k) implies m.dom().contains(k) && m[k]
        == n[k] by {
        let j = choose|j: int| 0 <= j < t.len() && key_of(#[trigger] t[j]) == k;
        assert(key_of(s[j]) == k);
        lemma_map_value(t, j);
        lemma_map_value(s, j);
    }
    assert forall|k: PairKey| #[trigger] m.dom().contains(k) implies n.dom().contains(k) by {
        if k == key_of(e) {
            assert(key_of(t[i]) == k);
        } else {
            let j = choose|j: int| 0 <= j < s.len() && key_of(#[trigger] s[j]) == k;
            assert(key_of(t[j]) == k);
        }
    }
    assert(m.dom() =~= n.dom());
    assert(m =~= n);
}

/// The dependency matrix.
pub struct InputMatrix {
    entries: Vec<Entry>,
}

impl View for InputMatrix {
    type V = Map<PairKey, Dependency>;

    /// The matrix as a map from pairs of activity names to dependencies.
    open spec fn view(&self) -> Map<PairKey, Dependency> {
        entries_to_map(self.entries())
    }
}

impl InputMatrix {
    /// The stored entries, in the order in which the matrix holds them.
    pub closed spec fn entries(&self) -> Seq<Entry> {
        self.entries@
    }

    /// No pair of activities is stored twice.
    #[verifier::type_invariant]
    pub open spec fn wf(&self) -> bool {
        distinct_keys(self.entries())
    }

    /// The matrix without entries.
    pub fn new() -> (matrix: Self)
        ensures
            matrix@ == Map::<PairKey, Dependency>::empty(),
            matrix.entries() == Seq::<Entry>::empty(),
    {
        InputMatrix { entries: Vec::new() }
    }

    /// The number of pairs of activities in the matrix.
    pub fn len(&self) -> (n: usize)
        ensures
            n == self@.len(),
            n == self.entries().len(),
    {
        proof {
            use_type_invariant(self);
            lemma_map_len(self.entries@);
        }
        self.entries.len()
    }

    /// Whether the matrix holds no pair at all.
    pub fn is_empty(&self) -> (empty: bool)
        ensures
            empty == (self@.len() == 0),
    {
        self.len() == 0
    }

    /// Stores `value` under `key`. Where the pair was already in the matrix
    /// its dependency is replaced, and the one it had is returned.
    pub fn insert(&mut self, key: (Activity, Activity), value: Dependency) -> (previous: Option<
        Dependency,
    >)
        ensures
            final(self)@ == old(self)@.insert((key.0@, key.1@), value),
            previous == if old(self)@.dom().contains((key.0@, key.1@)) {
                Some(old(self)@[(key.0@, key.1@)])
            } else {
                None::<Dependency>
            },
    {
        proof {
            use_type_invariant(&*self);
        }
        let mut entries: Vec<Entry> = Vec::new();
        std::mem::swap(&mut entries, &mut self.entries);
        let ghost before = entries@;
        proof {
            lemma_map_domain(before);
        }
        match position(&entries, &key) {
            Some(i) => {
                let stored = entries.remove(i);
                proof {
                    lemma_map_value(before, i as int);
                    lemma_map_update(before, i as int, (stored.0, value));
                }
                entries.insert(i, (stored.0, value));
                assert(entries@ == before.update(i as int, (stored.0, value)));
                self.entries = entries;
                Some(stored.1)
            },
            None => {
                proof {
                    lemma_map_push(before, (key, value));
                }
                entries.push((key, value));
                self.entries = entries;
                None
            },
        }
    }

    /// The dependency stored under `key`, if the pair is in the matrix.
    pub fn get(&self, key: &(Activity, Activity)) -> (found: Option<&Dependency>)
        ensures
            found == if self@.dom().contains((key.0@, key.1@)) {
                Some(&self@[(key.0@, key.1@)])
            } else {
                None::<&Dependency>
            },
    {
        proof {
            use_type_invariant(self);
            lemma_map_domain(self.entries@);
        }
        match position(&self.entries, key) {
            Some(i) => {
                proof {
                    lemma_map_value(self.entries@, i as int);
                }
                Some(&self.entries[i].1)
            },
            None => None,
        }
    }

    /// Whether the pair `key` is in the matrix.
    pub fn contains_key(&self, key: &(Activity, Activity)) -> (found: bool)
        ensures
            found == self@.dom().contains((key.0@, key.1@)),
    {
        self.get(key).is_some()
    }

    /// The dependencies of all pairs, in the order in which the matrix holds
    /// its entries.
    pub fn values(&self) -> (values: Vec<&Dependency>)
        ensures
            values@.len() == self.entries().len(),
            forall|i: int| 0 <= i < values@.len() ==> *values@[i] == (#[trigger] self.entries()[i]).1,
    {
        let mut values: Vec<&Dependency> = Vec::new();
        let mut i: usize = 0;
        while i < self.entries.len()
            invariant
                i <= self.entries@.len(),
                values@.len() == i,
                forall|j: int| 0 <= j < i ==> *values@[j] == (#[trigger] self.entries@[j]).1,
            decreases self.entries@.len() - i,
        {
            values.push(&self.entries[i].1);
            i += 1;
        }
        values
    }
}

/// The place of the entry stored under `key`, if there is one.
fn position(entries: &Vec<Entry>, key: &(Activity, Activity)) -> (found: Option<usize>)
    ensures
        match found {
            Some(i) => i < entries@.len() && key_of(entries@[i as int]) == (key.0@, key.1@),
            None => forall|i: int|
                0 <= i < entries@.len() ==> key_of(#[trigger] entries@[i]) != (key.0@, key.1@),
        },
{
    let mut i: usize = 0;
    while i < entries.len()
        invariant
            i <= entries@.len(),
            forall|j: int| 0 <= j < i ==> key_of(#[trigger] entries@[j]) != (key.0@, key.1@),
        decreases entries@.len() - i,
    {
        if entries[i].0.0 == key.0 && entries[i].0.1 == key.1 {
            return Some(i);
        }
        i += 1;
    }
    None
}

} // verus!
