//! A map kept as a vector of entries in ascending key order.
use vstd::prelude::*;

use crate::text::text_precedes;

verus! {

/// A key type with a strict total order on what its values stand for.
pub trait Key: Sized {
    /// What a key stands for: equal models are equal keys.
    type Model;

    /// The model of this key.
    spec fn model(&self) -> Self::Model;

    /// Whether `a` sorts before `b`.
    spec fn before(a: Self::Model, b: Self::Model) -> bool;

    /// `before` is irreflexive, transitive and total.
    proof fn order(a: Self::Model, b: Self::Model, c: Self::Model)
        ensures
            !Self::before(a, a),
            Self::before(a, b) && Self::before(b, c) ==> Self::before(a, c),
            Self::before(a, b) || a == b || Self::before(b, a),
    ;

    /// Whether this key sorts before `other`.
    fn precedes(&self, other: &Self) -> (r: bool)
        ensures
            r == Self::before(self.model(), other.model()),
    ;
}

impl Key for String {
    type Model = Seq<char>;

    open spec fn model(&self) -> Seq<char> {
        self@
    }

    open spec fn before(a: Seq<char>, b: Seq<char>) -> bool {
        crate::text::text_before(a, b)
    }

    proof fn order(a: Seq<char>, b: Seq<char>, c: Seq<char>) {
        crate::text::text_order(a, b, c);
    }

    fn precedes(&self, other: &Self) -> (r: bool) {
        text_precedes(self.as_str(), other.as_str())
    }
}

/// The map that a sequence of entries stands for.
pub open spec fn map_of<M, V>(entries: Seq<(M, V)>) -> Map<M, V> {
    Map::new(
        |k: M| exists|i: int| 0 <= i < entries.len() && (#[trigger] entries[i]).0 == k,
        |k: M| entries[choose|i: int| 0 <= i < entries.len() && (#[trigger] entries[i]).0 == k].1,
    )
}

/// Entries in ascending key order, no key twice.
#[derive(Debug, Clone, PartialEq, Eq)]
pub struct SortedMap<K, V> {
    entries: Vec<(K, V)>,
}

impl<K: Key, V> SortedMap<K, V> {
    /// The entries in key order, each key by its model.
    pub closed spec fn listing(&self) -> Seq<(K::Model, V)> {
        self.entries@.map_values(|e: (K, V)| (e.0.model(), e.1))
    }

    /// The keys ascend strictly.
    pub open spec fn wf(&self) -> bool {
        forall|i: int, j: int|
            0 <= i < j < self.listing().len() ==> K::before(
                (#[trigger] self.listing()[i]).0,
                (#[trigger] self.listing()[j]).0,
            )
    }

    /// The map from key models to values.
    pub open spec fn view(&self) -> Map<K::Model, V> {
        map_of(self.listing())
    }

    /// The map without entries.
    pub fn new() -> (r: Self)
        ensures
            r.wf(),
            r@ == Map::<K::Model, V>::empty(),
            r.listing() == Seq::<(K::Model, V)>::empty(),
    {
        let r = SortedMap { entries: Vec::new() };
        assert(r.listing() =~= Seq::<(K::Model, V)>::empty());
        assert(r@ =~= Map::<K::Model, V>::empty());
        r
    }

    /// The number of entries.
    pub fn len(&self) -> (r: usize)
        ensures
            r == self.listing().len(),
    {
        self.entries.len()
    }

    /// The entry at position `i` of the key order.
    pub fn entry(&self, i: usize) -> (r: (&K, &V))
        requires
            i < self.listing().len(),
        ensures
            r.0.model() == self.listing()[i as int].0,
            *r.1 == self.listing()[i as int].1,
    {
        let e = &self.entries[i];
        (&e.0, &e.1)
    }

    /// The position of the first entry whose key does not sort before `key`.
    fn position(&self, key: &K) -> (r: usize)
        requires
            self.wf(),
        ensures
            r <= self.listing().len(),
            forall|i: int|
                0 <= i < r ==> K::before((#[trigger] self.listing()[i]).0, key.model()),
            forall|i: int|
                r <= i < self.listing().len() ==> !K::before(
                    (#[trigger] self.listing()[i]).0,
                    key.model(),
                ),
    {
        let mut at: usize = 0;
        while at < self.entries.len() && self.entries[at].0.precedes(key)
            invariant
                at <= self.entries.len(),
                forall|i: int|
                    0 <= i < at ==> K::before((#[trigger] self.listing()[i]).0, key.model()),
            decreases self.entries.len() - at,
        {
            assert(self.listing()[at as int].0 == self.entries@[at as int].0.model());
            at += 1;
        }
        proof {
            if at < self.entries.len() {
                assert(self.listing()[at as int].0 == self.entries@[at as int].0.model());
                assert forall|i: int| at <= i < self.listing().len() implies !K::before(
                    (#[trigger] self.listing()[i]).0,
                    key.model(),
                ) by {
                    K::order(self.listing()[at as int].0, self.listing()[i].0, key.model());
                }
            }
        }
        at
    }

    /// Maps `key` to `value`, replacing an earlier value of the same key.
    pub fn insert(&mut self, key: K, value: V)
        requires
            old(self).wf(),
        ensures
            final(self).wf(),
            final(self)@ == old(self)@.insert(key.model(), value),
    {
        let ghost before = self.listing();
        let ghost k = key.model();
        let at = self.position(&key);
        let hit = at < self.entries.len() && !key.precedes(&self.entries[at].0);
        if hit {
            assert(before[at as int].0 == self.entries@[at as int].0.model());
            proof {
                K::order(before[at as int].0, k, k);
            }
            let (kept, _) = self.entries.remove(at);
            self.entries.insert(at, (kept, value));
            assert(self.listing() =~= before.update(at as int, (k, value)));
        } else {
            proof {
                if at < before.len() {
                    assert(before[at as int].0 == self.entries@[at as int].0.model());
                }
            }
            self.entries.insert(at, (key, value));
            assert(self.listing() =~= before.insert(at as int, (k, value)));
        }
        let ghost after = self.listing();
        proof {
            assert(after[at as int] == (k, value));
            if hit {
                assert forall|i: int, j: int| 0 <= i < j < after.len() implies K::before(
                    (#[trigger] after[i]).0,
                    (#[trigger] after[j]).0,
                ) by {
                    assert(after[i].0 == before[i].0);
                    assert(after[j].0 == before[j].0);
                }
            } else {
                assert forall|i: int, j: int| 0 <= i < j < after.len() implies K::before(
                    (#[trigger] after[i]).0,
                    (#[trigger] after[j]).0,
                ) by {
                    let x = if i < at { i } else { i - 1 };
                    let y = if j < at { j } else { j - 1 };
                    if i == at {
                        assert(after[j] == before[y]);
                        K::order(k, before[at as int].0, before[y].0);
                    } else if j == at {
                        assert(after[i] == before[x]);
                    } else {
                        assert(after[i] == before[x]);
                        assert(after[j] == before[y]);
                    }
                }
            }
            lemma_map_insert::<K, V>(before, after, at as int, k, value, hit);
        }
    }

    /// The value of `key`, if it has one.
    pub fn get(&self, key: &K) -> (r: Option<&V>)
        requires
            self.wf(),
        ensures
            r is Some <==> self@.contains_key(key.model()),
            r matches Some(v) ==> *v == self@[key.model()],
    {
        let at = self.position(key);
        let ghost listing = self.listing();
        if at < self.entries.len() && !key.precedes(&self.entries[at].0) {
            assert(listing[at as int].0 == self.entries@[at as int].0.model());
            proof {
                K::order(listing[at as int].0, key.model(), key.model());
                lemma_map_at::<K, V>(listing, at as int);
            }
            Some(&self.entries[at].1)
        } else {
            proof {
                if self@.contains_key(key.model()) {
                    let i = choose|i: int|
                        0 <= i < listing.len() && (#[trigger] listing[i]).0 == key.model();
                    K::order(key.model(), key.model(), key.model());
                    assert(listing[at as int].0 == self.entries@[at as int].0.model());
                    if i > at {
                        K::order(listing[at as int].0, listing[i].0, key.model());
                    }
                }
            }
            None
        }
    }
}

impl SortedMap<String, String> {
    /// The same entries once more.
    pub fn copy(&self) -> (r: Self)
        ensures
            r.listing() == self.listing(),
            self.wf() ==> r.wf(),
    {
        let mut entries: Vec<(String, String)> = Vec::new();
        let mut i: usize = 0;
        while i < self.entries.len()
            invariant
                i <= self.entries.len(),
                entries.len() == i,
                forall|j: int| 0 <= j < i ==> entries@[j] == self.entries@[j],
            decreases self.entries.len() - i,
        {
            let e = &self.entries[i];
            entries.push((e.0.clone(), e.1.clone()));
            i += 1;
        }
        let r = SortedMap { entries };
        assert(r.entries@ =~= self.entries@);
        r
    }
}

/// Strictly ascending entries.
pub open spec fn ascending<K: Key, V>(entries: Seq<(K::Model, V)>) -> bool {
    forall|i: int, j: int|
        0 <= i < j < entries.len() ==> K::before(
            (#[trigger] entries[i]).0,
            (#[trigger] entries[j]).0,
        )
}

/// In strictly ascending entries each entry is its key's value.
pub proof fn lemma_map_at<K: Key, V>(entries: Seq<(K::Model, V)>, i: int)
    requires
        ascending::<K, V>(entries),
        0 <= i < entries.len(),
    ensures
        map_of(entries).contains_key(entries[i].0),
        map_of(entries)[entries[i].0] == entries[i].1,
{
    let k = entries[i].0;
    let c = choose|j: int| 0 <= j < entries.len() && (#[trigger] entries[j]).0 == k;
    assert(entries[c].0 == k);
    K::order(k, k, k);
    if c < i {
        assert(K::before(entries[c].0, entries[i].0));
    } else if i < c {
        assert(K::before(entries[i].0, entries[c].0));
    }
}

proof fn lemma_map_insert<K: Key, V>(
    before: Seq<(K::Model, V)>,
    after: Seq<(K::Model, V)>,
    at: int,
    k: K::Model,
    v: V,
    hit: bool,
)
    requires
        ascending::<K, V>(before),
        ascending::<K, V>(after),
        0 <= at <= before.len(),
        hit ==> at < before.len() && before[at].0 == k && after == before.update(at, (k, v)),
        !hit ==> after == before.insert(at, (k, v)),
    ensures
        map_of(after) == map_of(before).insert(k, v),
{
    let m = map_of(after);
    let n = map_of(before).insert(k, v);
    assert(after[at] == (k, v));
    assert forall|x: K::Model| m.contains_key(x) == n.contains_key(x) by {
        if m.contains_key(x) {
            let i = choose|i: int| 0 <= i < after.len() && (#[trigger] after[i]).0 == x;
            assert(after[i].0 == x);
            if i != at {
                let j = if hit || i < at { i } else { i - 1 };
                assert(before[j] == after[i]);
            }
        }
        if n.contains_key(x) && x != k {
            let j = choose|j: int| 0 <= j < before.len() && (#[trigger] before[j]).0 == x;
            assert(before[j].0 == x);
            let i = if hit || j < at { j } else { j + 1 };
            assert(after[i] == before[j]);
        }
    }
    assert forall|x: K::Model| m.contains_key(x) implies m[x] == n[x] by {
        let i = choose|i: int| 0 <= i < after.len() && (#[trigger] after[i]).0 == x;
        assert(after[i].0 == x);
        lemma_map_at::<K, V>(after, i);
        if i == at {
        } else {
            let j = if hit || i < at { i } else { i - 1 };
            assert(before[j] == after[i]);
            lemma_map_at::<K, V>(before, j);
            K::order(x, x, x);
            if x == k {
                if i < at {
                    assert(K::before(after[i].0, after[at].0));
                } else {
                    assert(K::before(after[at].0, after[i].0));
                }
            }
        }
    }
    assert(m =~= n);
}

} // verus!
