//! Small tables: a list of entries no two of which have the same key, seen as a
//! map.
use vstd::prelude::*;

verus! {

/// Something that can be told apart by what its view says.
pub trait Key: View {
    /// Whether two keys say the same.
    fn same(&self, other: &Self) -> (r: bool)
        ensures
            r == (self@ == other@),
    ;
}

/// The map that a list of pairs stands for, later pairs first.
pub open spec fn map_of<A, B>(pairs: Seq<(A, B)>) -> Map<A, B>
    decreases pairs.len(),
{
    if pairs.len() == 0 {
        Map::empty()
    } else {
        map_of(pairs.drop_last()).insert(pairs.last().0, pairs.last().1)
    }
}

/// No two pairs have the same key.
pub open spec fn distinct_keys<A, B>(pairs: Seq<(A, B)>) -> bool {
    forall|i: int, j: int| 0 <= i < j < pairs.len() ==> (#[trigger] pairs[i]).0 != (#[trigger] pairs[j]).0
}

/// The part of a map whose entries satisfy a predicate.
pub open spec fn kept<A, B>(m: Map<A, B>, keep: spec_fn(A, B) -> bool) -> Map<A, B> {
    Map::new(|k: A| m.contains_key(k) && keep(k, m[k]), |k: A| m[k])
}

/// How many entries of a map satisfy a predicate.
pub open spec fn count<A, B>(m: Map<A, B>, which: spec_fn(A, B) -> bool) -> nat {
    kept(m, which).len()
}

/// How many pairs satisfy a predicate.
spec fn count_pairs<A, B>(pairs: Seq<(A, B)>, which: spec_fn(A, B) -> bool) -> nat
    decreases pairs.len(),
{
    if pairs.len() == 0 {
        0
    } else {
        count_pairs(pairs.drop_last(), which) + if which(pairs.last().0, pairs.last().1) {
            1nat
        } else {
            0nat
        }
    }
}

proof fn lemma_prefix_distinct<A, B>(pairs: Seq<(A, B)>)
    requires
        pairs.len() > 0,
        distinct_keys(pairs),
    ensures
        distinct_keys(pairs.drop_last()),
        !map_of(pairs.drop_last()).contains_key(pairs.last().0),
{
    let init = pairs.drop_last();
    assert forall|i: int, j: int| 0 <= i < j < init.len() implies (#[trigger] init[i]).0 != (
    #[trigger] init[j]).0 by {
        assert(init[i] == pairs[i] && init[j] == pairs[j]);
    }
    if map_of(init).contains_key(pairs.last().0) {
        lemma_key_has_place(init, pairs.last().0);
        let i = choose|i: int| 0 <= i < init.len() && (#[trigger] init[i]).0 == pairs.last().0;
        assert(init[i] == pairs[i]);
        assert(pairs[pairs.len() - 1].0 != pairs[i].0);
    }
}

/// A key of the map is the key of some pair.
proof fn lemma_key_has_place<A, B>(pairs: Seq<(A, B)>, key: A)
    requires
        map_of(pairs).contains_key(key),
    ensures
        exists|i: int| 0 <= i < pairs.len() && (#[trigger] pairs[i]).0 == key,
    decreases pairs.len(),
{
    if pairs.len() > 0 {
        if pairs.last().0 == key {
            assert(pairs[pairs.len() - 1].0 == key);
        } else {
            lemma_key_has_place(pairs.drop_last(), key);
            let i = choose|i: int|
                0 <= i < pairs.drop_last().len() && (#[trigger] pairs.drop_last()[i]).0 == key;
            assert(pairs[i] == pairs.drop_last()[i]);
        }
    }
}

/// The pair at a place is in the map.
proof fn lemma_place_is_in_map<A, B>(pairs: Seq<(A, B)>, i: int)
    requires
        0 <= i < pairs.len(),
        distinct_keys(pairs),
    ensures
        map_of(pairs).contains_key(pairs[i].0),
        map_of(pairs)[pairs[i].0] == pairs[i].1,
    decreases pairs.len(),
{
    if i < pairs.len() - 1 {
        lemma_prefix_distinct(pairs);
        lemma_place_is_in_map(pairs.drop_last(), i);
        assert(pairs.drop_last()[i] == pairs[i]);
        assert(pairs[pairs.len() - 1].0 != pairs[i].0);
    }
}

/// The map has as many entries as the list.
proof fn lemma_map_len<A, B>(pairs: Seq<(A, B)>)
    requires
        distinct_keys(pairs),
    ensures
        map_of(pairs).dom().finite(),
        map_of(pairs).len() == pairs.len(),
    decreases pairs.len(),
{
    if pairs.len() > 0 {
        lemma_prefix_distinct(pairs);
        lemma_map_len(pairs.drop_last());
    }
}

proof fn lemma_map_push<A, B>(pairs: Seq<(A, B)>, key: A, value: B)
    requires
        distinct_keys(pairs),
        !map_of(pairs).contains_key(key),
    ensures
        map_of(pairs.push((key, value))) == map_of(pairs).insert(key, value),
        distinct_keys(pairs.push((key, value))),
{
    let after = pairs.push((key, value));
    assert(after.drop_last() =~= pairs);
    assert forall|i: int, j: int| 0 <= i < j < after.len() implies (#[trigger] after[i]).0 != (
    #[trigger] after[j]).0 by {
        if j == pairs.len() {
            lemma_place_is_in_map(pairs, i);
        }
    }
}

proof fn lemma_map_update<A, B>(pairs: Seq<(A, B)>, i: int, value: B)
    requires
        distinct_keys(pairs),
        0 <= i < pairs.len(),
    ensures
        map_of(pairs.update(i, (pairs[i].0, value))) == map_of(pairs).insert(pairs[i].0, value),
        distinct_keys(pairs.update(i, (pairs[i].0, value))),
{
    let key = pairs[i].0;
    let after = pairs.update(i, (key, value));
    assert forall|a: int, b: int| 0 <= a < b < after.len() implies (#[trigger] after[a]).0 != (
    #[trigger] after[b]).0 by {
        assert(after[a].0 == pairs[a].0 && after[b].0 == pairs[b].0);
    }
    lemma_same_entries(after, map_of(pairs).insert(key, value));
    assert forall|k: A| map_of(pairs).insert(key, value).contains_key(k) implies exists|j: int|
        0 <= j < after.len() && (#[trigger] after[j]).0 == k by {
        if k == key {
            assert(after[i].0 == k);
        } else {
            lemma_key_has_place(pairs, k);
            let j = choose|j: int| 0 <= j < pairs.len() && (#[trigger] pairs[j]).0 == k;
            assert(after[j].0 == k);
        }
    }
    assert forall|j: int| 0 <= j < after.len() implies {
        let m = map_of(pairs).insert(key, value);
        m.contains_key((#[trigger] after[j]).0) && m[after[j].0] == after[j].1
    } by {
        lemma_place_is_in_map(pairs, j);
        if j != i {
            assert(pairs[i].0 != pairs[j].0);
        }
    }
}

/// A map with exactly the given pairs is the map of the list.
proof fn lemma_same_entries<A, B>(pairs: Seq<(A, B)>, m: Map<A, B>)
    requires
        distinct_keys(pairs),
    ensures
        ({
            &&& forall|k: A| #[trigger]
                m.contains_key(k) ==> exists|j: int| 0 <= j < pairs.len() && (#[trigger] pairs[j]).0 == k
            &&& forall|j: int|
                0 <= j < pairs.len() ==> m.contains_key((#[trigger] pairs[j]).0) && m[pairs[j].0]
                    == pairs[j].1
        }) ==> map_of(pairs) == m,
{
    if ({
        &&& forall|k: A| #[trigger]
            m.contains_key(k) ==> exists|j: int| 0 <= j < pairs.len() && (#[trigger] pairs[j]).0 == k
        &&& forall|j: int|
            0 <= j < pairs.len() ==> m.contains_key((#[trigger] pairs[j]).0) && m[pairs[j].0]
                == pairs[j].1
    }) {
        assert forall|k: A| #[trigger] map_of(pairs).contains_key(k) == m.contains_key(k) by {
            if map_of(pairs).contains_key(k) {
                lemma_key_has_place(pairs, k);
            }
            if m.contains_key(k) {
                let j = choose|j: int| 0 <= j < pairs.len() && (#[trigger] pairs[j]).0 == k;
                lemma_place_is_in_map(pairs, j);
            }
        }
        assert forall|k: A| #[trigger] map_of(pairs).contains_key(k) implies map_of(pairs)[k] == m[k] by {
            lemma_key_has_place(pairs, k);
            let j = choose|j: int| 0 <= j < pairs.len() && (#[trigger] pairs[j]).0 == k;
            lemma_place_is_in_map(pairs, j);
        }
        assert(map_of(pairs).dom() =~= m.dom());
        assert(map_of(pairs) =~= m);
    }
}

proof fn lemma_map_remove<A, B>(pairs: Seq<(A, B)>, i: int)
    requires
        distinct_keys(pairs),
        0 <= i < pairs.len(),
    ensures
        map_of(pairs.remove(i)) == map_of(pairs).remove(pairs[i].0),
        distinct_keys(pairs.remove(i)),
{
    let key = pairs[i].0;
    let after = pairs.remove(i);
    let m = map_of(pairs).remove(key);
    assert forall|a: int| 0 <= a < after.len() implies #[trigger] after[a] == pairs[if a < i {
        a
    } else {
        a + 1
    }] by {}
    assert forall|a: int, b: int| 0 <= a < b < after.len() implies (#[trigger] after[a]).0 != (
    #[trigger] after[b]).0 by {}
    lemma_same_entries(after, m);
    assert forall|k: A| #[trigger] m.contains_key(k) implies exists|j: int|
        0 <= j < after.len() && (#[trigger] after[j]).0 == k by {
        lemma_key_has_place(pairs, k);
        let j = choose|j: int| 0 <= j < pairs.len() && (#[trigger] pairs[j]).0 == k;
        assert(j != i);
        let there = if j < i {
            j
        } else {
            j - 1
        };
        assert(after[there].0 == k);
    }
    assert forall|j: int| 0 <= j < after.len() implies m.contains_key((#[trigger] after[j]).0)
        && m[after[j].0] == after[j].1 by {
        let from = if j < i {
            j
        } else {
            j + 1
        };
        lemma_place_is_in_map(pairs, from);
        assert(pairs[from].0 != pairs[i].0);
    }
}

proof fn lemma_kept_push<A, B>(m: Map<A, B>, key: A, value: B, which: spec_fn(A, B) -> bool)
    requires
        !m.contains_key(key),
    ensures
        kept(m.insert(key, value), which) == if which(key, value) {
            kept(m, which).insert(key, value)
        } else {
            kept(m, which)
        },
{
    let left = kept(m.insert(key, value), which);
    if which(key, value) {
        assert(left =~= kept(m, which).insert(key, value));
    } else {
        assert(left =~= kept(m, which));
    }
}

proof fn lemma_count_pairs<A, B>(pairs: Seq<(A, B)>, which: spec_fn(A, B) -> bool)
    requires
        distinct_keys(pairs),
    ensures
        kept(map_of(pairs), which).dom().finite(),
        count(map_of(pairs), which) == count_pairs(pairs, which),
        count_pairs(pairs, which) <= pairs.len(),
    decreases pairs.len(),
{
    if pairs.len() == 0 {
        assert(kept(map_of(pairs), which) =~= Map::empty());
    } else {
        lemma_prefix_distinct(pairs);
        lemma_count_pairs(pairs.drop_last(), which);
        lemma_kept_push(map_of(pairs.drop_last()), pairs.last().0, pairs.last().1, which);
    }
}

/// A table.
pub struct Table<K: Key, T: View> {
    entries: Vec<(K, T)>,
}

/// What the entries of a list say.
spec fn pairs_of<K: Key, T: View>(entries: Seq<(K, T)>) -> Seq<(K::V, T::V)> {
    Seq::new(entries.len(), |i: int| (entries[i].0@, entries[i].1@))
}

impl<K: Key, T: View> View for Table<K, T> {
    type V = Map<K::V, T::V>;

    closed spec fn view(&self) -> Map<K::V, T::V> {
        map_of(pairs_of(self.entries@))
    }
}

impl<K: Key, T: View> Table<K, T> {
    #[verifier::type_invariant]
    spec fn distinct(self) -> bool {
        distinct_keys(pairs_of(self.entries@))
    }

    /// The key at place `i`.
    pub closed spec fn key_model(self, i: int) -> K::V {
        self.entries@[i].0@
    }

    /// An empty table.
    pub fn new() -> (r: Self)
        ensures
            r@ == Map::<K::V, T::V>::empty(),
    {
        let entries: Vec<(K, T)> = Vec::new();
        assert(pairs_of(entries@) =~= Seq::<(K::V, T::V)>::empty());
        Table { entries }
    }

    /// How many entries there are. Every key stands at some place.
    pub fn len(&self) -> (r: usize)
        ensures
            r == self@.len(),
            self@.dom().finite(),
            forall|key: K::V| #[trigger]
                self@.contains_key(key) ==> exists|i: int| 0 <= i < r && self.key_model(i) == key,
            forall|i: int, j: int|
                0 <= i < j < r ==> #[trigger] self.key_model(i) != #[trigger] self.key_model(j),
    {
        proof {
            use_type_invariant(self);
            let pairs = pairs_of(self.entries@);
            lemma_map_len(pairs);
            assert forall|key: K::V| #[trigger] self@.contains_key(key) implies exists|i: int|
                0 <= i < pairs.len() && self.key_model(i) == key by {
                lemma_key_has_place(pairs, key);
                let i = choose|i: int| 0 <= i < pairs.len() && (#[trigger] pairs[i]).0 == key;
                assert(self.key_model(i) == key);
            }
            assert forall|i: int, j: int| 0 <= i < j < pairs.len() implies #[trigger] self.key_model(i)
                != #[trigger] self.key_model(j) by {
                assert(pairs[i].0 != pairs[j].0);
            }
        }
        self.entries.len()
    }

    /// The entry at place `i`. Places say nothing of when an entry came.
    pub fn at(&self, i: usize) -> (r: (&K, &T))
        requires
            i < self@.len(),
        ensures
            r.0@ == self.key_model(i as int),
            self@.contains_key(r.0@),
            self@[r.0@] == r.1@,
    {
        proof {
            use_type_invariant(self);
            lemma_map_len(pairs_of(self.entries@));
            lemma_place_is_in_map(pairs_of(self.entries@), i as int);
        }
        let entry = &self.entries[i];
        (&entry.0, &entry.1)
    }

    fn find(&self, key: &K) -> (r: Option<usize>)
        ensures
            match r {
                Some(i) => i < self.entries@.len() && self.entries@[i as int].0@ == key@
                    && self@.contains_key(key@) && self@[key@] == self.entries@[i as int].1@,
                None => !self@.contains_key(key@),
            },
    {
        proof {
            use_type_invariant(self);
        }
        let ghost pairs = pairs_of(self.entries@);
        let mut i: usize = 0;
        while i < self.entries.len()
            invariant
                i <= self.entries@.len(),
                pairs == pairs_of(self.entries@),
                distinct_keys(pairs),
                forall|j: int| 0 <= j < i ==> (#[trigger] pairs[j]).0 != key@,
            decreases self.entries@.len() - i,
        {
            if self.entries[i].0.same(key) {
                proof {
                    lemma_place_is_in_map(pairs, i as int);
                }
                return Some(i);
            }
            i = i + 1;
        }
        proof {
            if self@.contains_key(key@) {
                lemma_key_has_place(pairs, key@);
            }
        }
        None
    }

    /// The value of a key.
    pub fn get(&self, key: &K) -> (r: Option<&T>)
        ensures
            match r {
                Some(value) => self@.contains_key(key@) && value@ == self@[key@],
                None => !self@.contains_key(key@),
            },
    {
        match self.find(key) {
            Some(i) => Some(&self.entries[i].1),
            None => None,
        }
    }

    /// Whether there is an entry for a key.
    pub fn contains(&self, key: &K) -> (r: bool)
        ensures
            r == self@.contains_key(key@),
    {
        self.find(key).is_some()
    }

    /// Gives a key a value; a value that it had is replaced.
    pub fn insert(&mut self, key: K, value: T)
        ensures
            final(self)@ == old(self)@.insert(key@, value@),
    {
        let place = self.find(&key);
        proof {
            use_type_invariant(&*self);
        }
        let ghost before = pairs_of(self.entries@);
        let mut entries: Vec<(K, T)> = Vec::new();
        std::mem::swap(&mut entries, &mut self.entries);
        match place {
            Some(i) => {
                let ghost added = (key@, value@);
                entries.set(i, (key, value));
                proof {
                    lemma_map_update(before, i as int, added.1);
                    assert(pairs_of(entries@) =~= before.update(i as int, added));
                }
            },
            None => {
                let ghost added = (key@, value@);
                entries.push((key, value));
                proof {
                    lemma_map_push(before, added.0, added.1);
                    assert(pairs_of(entries@) =~= before.push(added));
                }
            },
        }
        self.entries = entries;
    }

    /// Takes the entry of a key out.
    pub fn remove(&mut self, key: &K) -> (r: Option<T>)
        ensures
            final(self)@ == old(self)@.remove(key@),
            match r {
                Some(value) => old(self)@.contains_key(key@) && value@ == old(self)@[key@],
                None => !old(self)@.contains_key(key@),
            },
    {
        let place = self.find(key);
        proof {
            use_type_invariant(&*self);
        }
        match place {
            Some(i) => {
                let ghost before = pairs_of(self.entries@);
                let mut entries: Vec<(K, T)> = Vec::new();
                std::mem::swap(&mut entries, &mut self.entries);
                let (_, value) = entries.remove(i);
                proof {
                    lemma_map_remove(before, i as int);
                    assert(pairs_of(entries@) =~= before.remove(i as int));
                }
                self.entries = entries;
                Some(value)
            },
            None => {
                assert(self@.remove(key@) =~= self@);
                None
            },
        }
    }

    /// Keeps the entries that satisfy a predicate and drops the others.
    pub(crate) fn retain<F: Fn(&K, &T) -> bool>(
        &mut self,
        keep: F,
        Ghost(keeps): Ghost<spec_fn(K::V, T::V) -> bool>,
    )
        requires
            forall|k: &K, v: &T| #[trigger] call_requires(keep, (k, v)),
            forall|k: &K, v: &T, b: bool| #[trigger] call_ensures(keep, (k, v), b) ==> b == keeps(k@, v@),
        ensures
            final(self)@ == kept(old(self)@, keeps),
    {
        proof {
            use_type_invariant(&*self);
        }
        let ghost before = pairs_of(self.entries@);
        let mut entries: Vec<(K, T)> = Vec::new();
        std::mem::swap(&mut entries, &mut self.entries);
        let mut left: Vec<(K, T)> = Vec::new();
        let ghost n = entries@.len();
        proof {
            assert(pairs_of(left@) =~= Seq::<(K::V, T::V)>::empty());
            assert(entries@.skip(0) =~= entries@);
            assert(before.take(0) =~= Seq::<(K::V, T::V)>::empty());
            assert(kept(map_of(before.take(0)), keeps) =~= Map::empty());
        }
        let ghost mut done: int = 0;
        while entries.len() > 0
            invariant
                forall|k: &K, v: &T| #[trigger] call_requires(keep, (k, v)),
                forall|k: &K, v: &T, b: bool| #[trigger]
                    call_ensures(keep, (k, v), b) ==> b == keeps(k@, v@),
                distinct_keys(before),
                before.len() == n,
                0 <= done <= n,
                entries@.len() == n - done,
                forall|i: int|
                    0 <= i < entries@.len() ==> (entries@[i].0@, entries@[i].1@) == #[trigger] before[i],
                distinct_keys(pairs_of(left@)),
                map_of(pairs_of(left@)) == kept(map_of(before.skip(n - done)), keeps),
            decreases entries@.len(),
        {
            let ghost so_far = pairs_of(left@);
            let (key, value) = match entries.pop() {
                Some(entry) => entry,
                None => return,
            };
            let ghost place = n - done - 1;
            let ghost pair = (key@, value@);
            let kept_now = keep(&key, &value);
            proof {
                assert(pair == before[place]);
                lemma_map_skip(before, place);
                lemma_kept_push(map_of(before.skip(place + 1)), pair.0, pair.1, keeps);
            }
            if kept_now {
                left.push((key, value));
                proof {
                    assert(!kept(map_of(before.skip(place + 1)), keeps).contains_key(pair.0));
                    lemma_map_push(so_far, pair.0, pair.1);
                    assert(pairs_of(left@) =~= so_far.push(pair));
                }
            }
            proof {
                done = done + 1;
            }
        }
        proof {
            assert(before.skip(0) =~= before);
        }
        self.entries = left;
    }

    /// How many entries satisfy a predicate.
    pub(crate) fn count_where<F: Fn(&K, &T) -> bool>(
        &self,
        which: F,
        Ghost(counted): Ghost<spec_fn(K::V, T::V) -> bool>,
    ) -> (r: usize)
        requires
            forall|k: &K, v: &T| #[trigger] call_requires(which, (k, v)),
            forall|k: &K, v: &T, b: bool| #[trigger]
                call_ensures(which, (k, v), b) ==> b == counted(k@, v@),
        ensures
            r == count(self@, counted),
    {
        proof {
            use_type_invariant(self);
        }
        let ghost pairs = pairs_of(self.entries@);
        let mut i: usize = 0;
        let mut n: usize = 0;
        assert(pairs.take(0) =~= Seq::<(K::V, T::V)>::empty());
        while i < self.entries.len()
            invariant
                forall|k: &K, v: &T| #[trigger] call_requires(which, (k, v)),
                forall|k: &K, v: &T, b: bool| #[trigger]
                    call_ensures(which, (k, v), b) ==> b == counted(k@, v@),
                pairs == pairs_of(self.entries@),
                i <= self.entries@.len(),
                n <= i,
                n == count_pairs(pairs.take(i as int), counted),
            decreases self.entries@.len() - i,
        {
            let entry = &self.entries[i];
            let hit = which(&entry.0, &entry.1);
            proof {
                let next = pairs.take(i + 1);
                assert(next.drop_last() =~= pairs.take(i as int));
                assert(next.last() == (entry.0@, entry.1@));
            }
            if hit {
                n = n + 1;
            }
            i = i + 1;
        }
        proof {
            assert(pairs.take(i as int) =~= pairs);
            lemma_count_pairs(pairs, counted);
        }
        n
    }
}

/// One pair more at the front.
proof fn lemma_map_skip<A, B>(pairs: Seq<(A, B)>, i: int)
    requires
        distinct_keys(pairs),
        0 <= i < pairs.len(),
    ensures
        map_of(pairs.skip(i)) == map_of(pairs.skip(i + 1)).insert(pairs[i].0, pairs[i].1),
        !map_of(pairs.skip(i + 1)).contains_key(pairs[i].0),
{
    let whole = pairs.skip(i);
    let rest = pairs.skip(i + 1);
    assert forall|a: int, b: int| 0 <= a < b < whole.len() implies (#[trigger] whole[a]).0 != (
    #[trigger] whole[b]).0 by {
        assert(whole[a] == pairs[i + a] && whole[b] == pairs[i + b]);
    }
    assert forall|a: int, b: int| 0 <= a < b < rest.len() implies (#[trigger] rest[a]).0 != (
    #[trigger] rest[b]).0 by {
        assert(rest[a] == pairs[i + 1 + a] && rest[b] == pairs[i + 1 + b]);
    }
    if map_of(rest).contains_key(pairs[i].0) {
        lemma_key_has_place(rest, pairs[i].0);
        let j = choose|j: int| 0 <= j < rest.len() && (#[trigger] rest[j]).0 == pairs[i].0;
        assert(rest[j] == pairs[i + 1 + j]);
    }
    let m = map_of(rest).insert(pairs[i].0, pairs[i].1);
    lemma_same_entries(whole, m);
    assert forall|k: A| #[trigger] m.contains_key(k) implies exists|j: int|
        0 <= j < whole.len() && (#[trigger] whole[j]).0 == k by {
        if k == pairs[i].0 {
            assert(whole[0].0 == k);
        } else {
            lemma_key_has_place(rest, k);
            let j = choose|j: int| 0 <= j < rest.len() && (#[trigger] rest[j]).0 == k;
            assert(whole[j + 1].0 == k);
        }
    }
    assert forall|j: int| 0 <= j < whole.len() implies m.contains_key((#[trigger] whole[j]).0)
        && m[whole[j].0] == whole[j].1 by {
        if j > 0 {
            assert(whole[j] == rest[j - 1]);
            lemma_place_is_in_map(rest, j - 1);
        }
    }
}

} // verus!
