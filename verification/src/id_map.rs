use vstd::prelude::*;

verus! {

/// Some entry of `s` has the key `k`.
pub open spec fn has_key<V>(s: Seq<(usize, V)>, k: usize) -> bool {
    exists|i: int| 0 <= i < s.len() && #[trigger] s[i].0 == k
}

/// The index of an entry of `s` with the key `k`.
pub open spec fn key_index<V>(s: Seq<(usize, V)>, k: usize) -> int {
    choose|i: int| 0 <= i < s.len() && #[trigger] s[i].0 == k
}

/// No two entries of `s` have the same key.
pub open spec fn keys_distinct<V>(s: Seq<(usize, V)>) -> bool {
    forall|i: int, j: int| 0 <= i < s.len() && 0 <= j < s.len() && i != j ==> s[i].0 != s[j].0
}

/// The value stored under `k`, if any.
pub open spec fn lookup<V>(s: Seq<(usize, V)>, k: usize) -> Option<V> {
    if has_key(s, k) {
        Some(s[key_index(s, k)].1)
    } else {
        None
    }
}

/// With distinct keys, the entry with key `k` is the one at `i`.
pub proof fn lemma_key_index_unique<V>(s: Seq<(usize, V)>, i: int)
    requires
        keys_distinct(s),
        0 <= i < s.len(),
    ensures
        has_key(s, s[i].0),
        key_index(s, s[i].0) == i,
        lookup(s, s[i].0) == Some(s[i].1),
{
    assert(s[i].0 == s[i].0);
}

/// Values stored under integer identifiers, in the order they were
/// first stored; an identifier occurs at most once.
#[derive(Debug)]
pub struct IdMap<V> {
    entries: Vec<(usize, V)>,
}

impl<V> View for IdMap<V> {
    type V = Seq<(usize, V)>;

    closed spec fn view(&self) -> Seq<(usize, V)> {
        self.entries@
    }
}

impl<V> IdMap<V> {
    pub open spec fn well_formed(&self) -> bool {
        keys_distinct(self@)
    }

    pub fn new() -> (res: Self)
        ensures
            res@ == Seq::<(usize, V)>::empty(),
            res.well_formed(),
    {
        IdMap { entries: Vec::new() }
    }

    pub fn len(&self) -> (res: usize)
        ensures
            res == self@.len(),
    {
        self.entries.len()
    }

    /// The key of the entry at position `i`.
    pub fn key_at(&self, i: usize) -> (res: usize)
        requires
            i < self@.len(),
        ensures
            res == self@[i as int].0,
    {
        self.entries[i].0
    }

    /// The position of the entry with key `k`, if there is one.
    fn position(&self, k: usize) -> (res: Option<usize>)
        requires
            self.well_formed(),
        ensures
            res is Some <==> has_key(self@, k),
            res matches Some(i) ==> i < self@.len() && self@[i as int].0 == k && key_index(self@, k)
                == i,
    {
        let mut i: usize = 0;
        while i < self.entries.len()
            invariant
                self.well_formed(),
                i <= self.entries@.len(),
                forall|j: int| 0 <= j < i ==> #[trigger] self.entries@[j].0 != k,
            decreases self.entries@.len() - i,
        {
            if self.entries[i].0 == k {
                proof {
                    lemma_key_index_unique(self@, i as int);
                }
                return Some(i);
            }
            i = i + 1;
        }
        None
    }

    /// Whether some value is stored under `k`.
    pub fn contains_key(&self, k: usize) -> (res: bool)
        requires
            self.well_formed(),
        ensures
            res == has_key(self@, k),
    {
        self.position(k).is_some()
    }

    /// The value stored under `k`, if any.
    pub fn get(&self, k: usize) -> (res: Option<&V>)
        requires
            self.well_formed(),
        ensures
            res is Some <==> has_key(self@, k),
            res matches Some(v) ==> Some(*v) == lookup(self@, k),
    {
        match self.position(k) {
            Some(i) => Some(&self.entries[i].1),
            None => None,
        }
    }

    /// Mutable access to the value stored under `k`, if any.
    pub fn get_mut(&mut self, k: usize) -> (res: Option<&mut V>)
        requires
            old(self).well_formed(),
        ensures
            res is Some <==> has_key(old(self)@, k),
            res matches Some(v) ==> Some(*v) == lookup(old(self)@, k) && final(self)@ == old(
                self,
            )@.update(key_index(old(self)@, k), (k, *final(v))),
            res is None ==> final(self)@ == old(self)@,
            final(self).well_formed(),
    {
        match self.position(k) {
            Some(i) => Some(&mut self.entries[i].1),
            None => None,
        }
    }

    /// Stores `v` under `k`, returning the value it replaces; a new key
    /// goes after all others.
    pub fn insert(&mut self, k: usize, v: V) -> (res: Option<V>)
        requires
            old(self).well_formed(),
        ensures
            final(self).well_formed(),
            res == lookup(old(self)@, k),
            has_key(old(self)@, k) ==> final(self)@ == old(self)@.update(
                key_index(old(self)@, k),
                (k, v),
            ),
            !has_key(old(self)@, k) ==> final(self)@ == old(self)@.push((k, v)),
    {
        match self.position(k) {
            Some(i) => {
                let (_, old_v) = self.entries.remove(i);
                self.entries.insert(i, (k, v));
                proof {
                    assert(self.entries@ =~= old(self)@.update(i as int, (k, v)));
                }
                Some(old_v)
            },
            None => {
                self.entries.push((k, v));
                None
            },
        }
    }

    /// Removes the value stored under `k` and returns it, if any; the
    /// other entries keep their order.
    pub fn remove(&mut self, k: usize) -> (res: Option<V>)
        requires
            old(self).well_formed(),
        ensures
            final(self).well_formed(),
            res == lookup(old(self)@, k),
            has_key(old(self)@, k) ==> final(self)@ == old(self)@.remove(
                key_index(old(self)@, k),
            ),
            !has_key(old(self)@, k) ==> final(self)@ == old(self)@,
    {
        match self.position(k) {
            Some(i) => {
                let (_, old_v) = self.entries.remove(i);
                Some(old_v)
            },
            None => None,
        }
    }

    /// The values in the order of their entries.
    pub fn values(&self) -> (res: Vec<&V>)
        ensures
            res@.len() == self@.len(),
            forall|i: int| 0 <= i < res@.len() ==> *#[trigger] res@[i] == self@[i].1,
    {
        let mut res: Vec<&V> = Vec::new();
        let mut i: usize = 0;
        while i < self.entries.len()
            invariant
                i <= self.entries@.len(),
                res@.len() == i,
                forall|j: int| 0 <= j < i ==> *#[trigger] res@[j] == self@[j].1,
            decreases self.entries@.len() - i,
        {
            res.push(&self.entries[i].1);
            i = i + 1;
        }
        res
    }
}


/// A value stored under a key is what a lookup of that key gives back,
/// and storing it changes the lookup of no other key.
pub proof fn law_lookup_after_insert<V>(s: Seq<(usize, V)>, k: usize, v: V, t: Seq<(usize, V)>, other: usize)
    requires
        keys_distinct(s),
        has_key(s, k) ==> t == s.update(key_index(s, k), (k, v)),
        !has_key(s, k) ==> t == s.push((k, v)),
        other != k,
    ensures
        keys_distinct(t),
        lookup(t, k) == Some(v),
        lookup(t, other) == lookup(s, other),
{
    if has_key(s, k) {
        let i = key_index(s, k);
        assert(keys_distinct(t));
        lemma_key_index_unique(t, i);
        if has_key(s, other) {
            let j = key_index(s, other);
            lemma_key_index_unique(s, j);
            lemma_key_index_unique(t, j);
        } else {
            assert(!has_key(t, other));
        }
    } else {
        assert(keys_distinct(t));
        lemma_key_index_unique(t, s.len() as int);
        if has_key(s, other) {
            let j = key_index(s, other);
            lemma_key_index_unique(s, j);
            lemma_key_index_unique(t, j);
        } else {
            assert(!has_key(t, other)) by {
                if has_key(t, other) {
                    let j = key_index(t, other);
                    assert(j < s.len());
                    assert(s[j].0 == other);
                }
            }
        }
    }
}

/// After removing a key nothing is stored under it, and the lookup of
/// every other key is unchanged.
pub proof fn law_lookup_after_remove<V>(s: Seq<(usize, V)>, k: usize, t: Seq<(usize, V)>, other: usize)
    requires
        keys_distinct(s),
        has_key(s, k) ==> t == s.remove(key_index(s, k)),
        !has_key(s, k) ==> t == s,
        other != k,
    ensures
        keys_distinct(t),
        lookup(t, k) == None::<V>,
        lookup(t, other) == lookup(s, other),
{
    if has_key(s, k) {
        let i = key_index(s, k);
        lemma_key_index_unique(s, i);
        assert(keys_distinct(t)) by {
            assert forall|a: int, b: int| 0 <= a < t.len() && 0 <= b < t.len() && a != b implies t[a].0 != t[b].0 by {
                let a2 = if a < i { a } else { a + 1 };
                let b2 = if b < i { b } else { b + 1 };
                assert(t[a] == s[a2] && t[b] == s[b2]);
            }
        }
        assert(!has_key(t, k)) by {
            if has_key(t, k) {
                let j = key_index(t, k);
                let j2 = if j < i { j } else { j + 1 };
                assert(t[j] == s[j2]);
            }
        }
        if has_key(s, other) {
            let j = key_index(s, other);
            lemma_key_index_unique(s, j);
            assert(j != i);
            let j2 = if j < i { j } else { j - 1 };
            assert(t[j2] == s[j]);
            lemma_key_index_unique(t, j2);
        } else {
            assert(!has_key(t, other)) by {
                if has_key(t, other) {
                    let j = key_index(t, other);
                    let j2 = if j < i { j } else { j + 1 };
                    assert(t[j] == s[j2]);
                }
            }
        }
    }
}
/// Storing a value under a key that was not stored, then removing that
/// key, gives back the entries as they were.
pub proof fn law_remove_undoes_insert<V>(s: Seq<(usize, V)>, k: usize, v: V)
    requires
        keys_distinct(s),
        !has_key(s, k),
    ensures
        has_key(s.push((k, v)), k),
        key_index(s.push((k, v)), k) == s.len(),
        s.push((k, v)).remove(s.len() as int) == s,
{
    let t = s.push((k, v));
    assert(keys_distinct(t)) by {
        assert forall|a: int, b: int| 0 <= a < t.len() && 0 <= b < t.len() && a != b implies t[a].0
            != t[b].0 by {
            if a < s.len() && b < s.len() {
                assert(t[a] == s[a] && t[b] == s[b]);
            } else if a < s.len() {
                assert(t[a] == s[a]);
                assert(s[a].0 == t[a].0);
            } else {
                assert(t[b] == s[b]);
                assert(s[b].0 == t[b].0);
            }
        }
    }
    lemma_key_index_unique(t, s.len() as int);
    assert(t.remove(s.len() as int) =~= s);
}

/// Appending an item that a sequence lacks, then removing the first
/// occurrence of that item, gives back the sequence.
pub proof fn law_remove_first_undoes_push<T>(s: Seq<T>, x: T, i: int)
    requires
        !s.contains(x),
        0 <= i < s.len() + 1,
        s.push(x)[i] == x,
    ensures
        i == s.len(),
        s.push(x).remove(i) == s,
{
    if i < s.len() {
        assert(s[i] == x);
    }
    assert(s.push(x).remove(s.len() as int) =~= s);
}

/// The identifiers `ids` list exactly the keys of `entries`, each once:
/// every listed identifier has an entry, every entry is listed, and no
/// identifier is listed twice.
pub open spec fn listed_consistently<V>(entries: Seq<(usize, V)>, ids: Seq<usize>) -> bool {
    &&& keys_distinct(entries)
    &&& ids.no_duplicates()
    &&& forall|i: int| 0 <= i < ids.len() ==> has_key(entries, #[trigger] ids[i])
    &&& forall|j: int| 0 <= j < entries.len() ==> ids.contains((#[trigger] entries[j]).0)
}

/// Storing an entry under an identifier that is not listed, and listing
/// it last, keeps the identifiers listed consistently; the identifier
/// had no entry before.
pub proof fn lemma_listed_after_push<V>(entries: Seq<(usize, V)>, ids: Seq<usize>, k: usize, v: V)
    requires
        listed_consistently(entries, ids),
        !ids.contains(k),
    ensures
        !has_key(entries, k),
        listed_consistently(entries.push((k, v)), ids.push(k)),
{
    if has_key(entries, k) {
        let j = key_index(entries, k);
        assert(ids.contains(entries[j].0));
    }
    let e2 = entries.push((k, v));
    let i2 = ids.push(k);
    assert(keys_distinct(e2)) by {
        assert forall|a: int, b: int| 0 <= a < e2.len() && 0 <= b < e2.len() && a != b implies e2[a].0
            != e2[b].0 by {
            if a < entries.len() && b < entries.len() {
                assert(e2[a] == entries[a] && e2[b] == entries[b]);
            } else if a < entries.len() {
                assert(e2[a] == entries[a]);
                assert(ids.contains(entries[a].0));
            } else {
                assert(e2[b] == entries[b]);
                assert(ids.contains(entries[b].0));
            }
        }
    }
    assert(i2.no_duplicates()) by {
        assert forall|a: int, b: int| 0 <= a < i2.len() && 0 <= b < i2.len() && a != b implies i2[a]
            != i2[b] by {
            if a < ids.len() && b < ids.len() {
            } else if a < ids.len() {
                assert(ids[a] == i2[a]);
            } else {
                assert(ids[b] == i2[b]);
            }
        }
    }
    assert forall|i: int| 0 <= i < i2.len() implies has_key(e2, #[trigger] i2[i]) by {
        if i < ids.len() {
            assert(has_key(entries, ids[i]));
            let j = key_index(entries, ids[i]);
            assert(e2[j] == entries[j]);
        } else {
            assert(e2[entries.len() as int].0 == k);
        }
    }
    assert forall|j: int| 0 <= j < e2.len() implies i2.contains((#[trigger] e2[j]).0) by {
        if j < entries.len() {
            assert(e2[j] == entries[j]);
            assert(ids.contains(entries[j].0));
            let i = choose|i: int| 0 <= i < ids.len() && ids[i] == entries[j].0;
            assert(i2[i] == ids[i]);
        } else {
            assert(i2[ids.len() as int] == k);
        }
    }
}

/// Removing the entry of a listed identifier and that identifier from
/// the list keeps the identifiers listed consistently; the identifier
/// had an entry.
pub proof fn lemma_listed_after_remove<V>(entries: Seq<(usize, V)>, ids: Seq<usize>, i: int)
    requires
        listed_consistently(entries, ids),
        0 <= i < ids.len(),
    ensures
        has_key(entries, ids[i]),
        listed_consistently(entries.remove(key_index(entries, ids[i])), ids.remove(i)),
{
    let k = ids[i];
    assert(has_key(entries, k));
    let x = key_index(entries, k);
    lemma_key_index_unique(entries, x);
    let e2 = entries.remove(x);
    let i2 = ids.remove(i);
    assert(keys_distinct(e2)) by {
        assert forall|a: int, b: int| 0 <= a < e2.len() && 0 <= b < e2.len() && a != b implies e2[a].0
            != e2[b].0 by {
            let a2 = if a < x { a } else { a + 1 };
            let b2 = if b < x { b } else { b + 1 };
            assert(e2[a] == entries[a2] && e2[b] == entries[b2]);
        }
    }
    assert(i2.no_duplicates()) by {
        assert forall|a: int, b: int| 0 <= a < i2.len() && 0 <= b < i2.len() && a != b implies i2[a]
            != i2[b] by {
            let a2 = if a < i { a } else { a + 1 };
            let b2 = if b < i { b } else { b + 1 };
            assert(i2[a] == ids[a2] && i2[b] == ids[b2]);
        }
    }
    assert forall|m: int| 0 <= m < i2.len() implies has_key(e2, #[trigger] i2[m]) by {
        let m2 = if m < i { m } else { m + 1 };
        assert(i2[m] == ids[m2]);
        assert(m2 != i);
        assert(ids[m2] != k);
        assert(has_key(entries, ids[m2]));
        let j = key_index(entries, ids[m2]);
        assert(j != x);
        let j2 = if j < x { j } else { j - 1 };
        assert(e2[j2] == entries[j]);
    }
    assert forall|j: int| 0 <= j < e2.len() implies i2.contains((#[trigger] e2[j]).0) by {
        let j2 = if j < x { j } else { j + 1 };
        assert(e2[j] == entries[j2]);
        assert(j2 != x);
        assert(entries[j2].0 != k);
        assert(ids.contains(entries[j2].0));
        let m = choose|m: int| 0 <= m < ids.len() && ids[m] == entries[j2].0;
        assert(m != i);
        let m2 = if m < i { m } else { m - 1 };
        assert(i2[m2] == ids[m]);
    }
}

/// Changing entries without changing their keys keeps the identifiers
/// listed consistently.
pub proof fn lemma_listed_same_keys<V>(entries: Seq<(usize, V)>, other: Seq<(usize, V)>, ids: Seq<usize>)
    requires
        listed_consistently(entries, ids),
        other.len() == entries.len(),
        forall|j: int| 0 <= j < entries.len() ==> #[trigger] other[j].0 == entries[j].0,
    ensures
        listed_consistently(other, ids),
{
    assert forall|a: int, b: int| 0 <= a < other.len() && 0 <= b < other.len() && a != b implies other[a].0
        != other[b].0 by {
        assert(other[a].0 == entries[a].0 && other[b].0 == entries[b].0);
    }
    assert forall|m: int| 0 <= m < ids.len() implies has_key(other, #[trigger] ids[m]) by {
        assert(has_key(entries, ids[m]));
        let j = key_index(entries, ids[m]);
        assert(other[j].0 == entries[j].0);
    }
    assert forall|j: int| 0 <= j < other.len() implies ids.contains((#[trigger] other[j]).0) by {
        assert(other[j].0 == entries[j].0);
        assert(ids.contains(entries[j].0));
    }
}

/// Every entry satisfies `carries`.
pub open spec fn all_carry<V>(entries: Seq<(usize, V)>, carries: spec_fn((usize, V)) -> bool) -> bool {
    forall|j: int| 0 <= j < entries.len() ==> carries(#[trigger] entries[j])
}

/// Appending an entry that satisfies `carries` keeps every entry
/// satisfying it.
pub proof fn lemma_carry_after_push<V>(
    entries: Seq<(usize, V)>,
    carries: spec_fn((usize, V)) -> bool,
    e: (usize, V),
)
    requires
        all_carry(entries, carries),
        carries(e),
    ensures
        all_carry(entries.push(e), carries),
{
    assert forall|j: int| 0 <= j < entries.push(e).len() implies carries(#[trigger] entries.push(e)[j]) by {
        if j < entries.len() {
            assert(entries.push(e)[j] == entries[j]);
        }
    }
}

/// Removing an entry keeps every other entry satisfying `carries`.
pub proof fn lemma_carry_after_remove<V>(entries: Seq<(usize, V)>, carries: spec_fn((usize, V)) -> bool, x: int)
    requires
        all_carry(entries, carries),
        0 <= x < entries.len(),
    ensures
        all_carry(entries.remove(x), carries),
{
    assert forall|j: int| 0 <= j < entries.remove(x).len() implies carries(#[trigger] entries.remove(x)[j]) by {
        let j2 = if j < x { j } else { j + 1 };
        assert(entries.remove(x)[j] == entries[j2]);
    }
}

/// Replacing the value of an entry, under the same key, by one with
/// which the entry satisfies `carries` keeps the identifiers listed
/// consistently and every entry satisfying `carries`.
pub proof fn lemma_replace_keeps_listed<V>(
    entries: Seq<(usize, V)>,
    ids: Seq<usize>,
    carries: spec_fn((usize, V)) -> bool,
    x: int,
    v: V,
)
    requires
        listed_consistently(entries, ids),
        all_carry(entries, carries),
        0 <= x < entries.len(),
        carries((entries[x].0, v)),
    ensures
        listed_consistently(entries.update(x, (entries[x].0, v)), ids),
        all_carry(entries.update(x, (entries[x].0, v)), carries),
{
    let t = entries.update(x, (entries[x].0, v));
    lemma_listed_same_keys(entries, t, ids);
    assert forall|j: int| 0 <= j < t.len() implies carries(#[trigger] t[j]) by {
        if j != x {
            assert(t[j] == entries[j]);
        }
    }
}

} // verus!
