//! A small association map from names to values, kept in insertion order.
//! Schemas, rows and table registries are all maps of this shape; the spec
//! model of a map is its sequence of (name, value) pairs, looked up by first
//! match.

use vstd::prelude::*;

use crate::types::{ColumnName, Constructor, ScalarType, ScalarValue, TableName};

verus! {

/// First-match lookup in a sequence of (name, value) pairs.
pub open spec fn map_get<V>(m: Seq<(Seq<char>, V)>, k: Seq<char>) -> Option<V>
    decreases m.len(),
{
    if m.len() == 0 {
        None
    } else if m[0].0 == k {
        Some(m[0].1)
    } else {
        map_get(m.drop_first(), k)
    }
}

/// Whether the key occurs at all.
pub open spec fn map_has<V>(m: Seq<(Seq<char>, V)>, k: Seq<char>) -> bool {
    map_get(m, k) is Some
}

/// Insertion: replace the first pair holding the key, or append a new pair.
pub open spec fn map_put<V>(m: Seq<(Seq<char>, V)>, k: Seq<char>, v: V) -> Seq<(Seq<char>, V)>
    decreases m.len(),
{
    if m.len() == 0 {
        seq![(k, v)]
    } else if m[0].0 == k {
        seq![(k, v)] + m.drop_first()
    } else {
        seq![m[0]] + map_put(m.drop_first(), k, v)
    }
}

/// `map_get` after `map_put`: the inserted value under the key itself, and
/// the old bindings under every other key.
pub proof fn lemma_map_put_get<V>(m: Seq<(Seq<char>, V)>, k: Seq<char>, v: V, k2: Seq<char>)
    ensures
        map_get(map_put(m, k, v), k2) == if k2 == k {
            Some(v)
        } else {
            map_get(m, k2)
        },
    decreases m.len(),
{
    let r = map_put(m, k, v);
    if m.len() == 0 {
        assert(r.drop_first() =~= m);
    } else if m[0].0 == k {
        if k2 != k {
            assert(r.drop_first() =~= m.drop_first());
        }
    } else {
        lemma_map_put_get(m.drop_first(), k, v, k2);
        assert(r[0] == m[0]);
        assert(r.drop_first() =~= map_put(m.drop_first(), k, v));
    }
}

/// A key type of the map: a name compared and copied by its text.
pub trait MapKey: View<V = Seq<char>> + Sized {
    fn key_eq(&self, other: &Self) -> (r: bool)
        ensures
            r == (self@ == other@),
    ;

    fn key_dup(&self) -> (r: Self)
        ensures
            r@ == self@,
    ;
}

impl MapKey for TableName {
    fn key_eq(&self, other: &Self) -> (r: bool) {
        self.0 == other.0
    }

    fn key_dup(&self) -> (r: Self) {
        self.dup()
    }
}

impl MapKey for ColumnName {
    fn key_eq(&self, other: &Self) -> (r: bool) {
        self.0 == other.0
    }

    fn key_dup(&self) -> (r: Self) {
        self.dup()
    }
}

impl MapKey for Constructor {
    fn key_eq(&self, other: &Self) -> (r: bool) {
        self.0 == other.0
    }

    fn key_dup(&self) -> (r: Self) {
        self.dup()
    }
}

/// A value type of the map: anything with a view and an exact copy.
pub trait MapValue: View + Sized {
    fn val_dup(&self) -> (r: Self)
        ensures
            r@ == self@,
    ;
}

impl MapValue for ScalarType {
    fn val_dup(&self) -> (r: Self) {
        *self
    }
}

impl MapValue for ScalarValue {
    fn val_dup(&self) -> (r: Self) {
        self.dup()
    }
}

/// The map itself: a vector of pairs in insertion order.
#[derive(Debug, PartialEq)]
pub struct NameMap<K, V> {
    pairs: Vec<(K, V)>,
}

/// The view of a sequence of pairs: each name and value by its own view.
pub open spec fn pairs_view<K: View<V = Seq<char>>, V: View>(pairs: Seq<(K, V)>) -> Seq<
    (Seq<char>, <V as View>::V),
> {
    Seq::new(pairs.len(), |i: int| (pairs[i].0@, pairs[i].1@))
}

impl<K: MapKey, V: MapValue> View for NameMap<K, V> {
    type V = Seq<(Seq<char>, <V as View>::V)>;

    closed spec fn view(&self) -> Seq<(Seq<char>, <V as View>::V)> {
        pairs_view(self.pairs@)
    }
}

impl<K: MapKey, V: MapValue> MapValue for NameMap<K, V> {
    fn val_dup(&self) -> (r: Self) {
        self.dup()
    }
}

/// `map_put` of a key that is absent appends the pair.
proof fn lemma_map_put_absent<V>(m: Seq<(Seq<char>, V)>, k: Seq<char>, v: V)
    requires
        forall|j: int| 0 <= j < m.len() ==> m[j].0 != k,
    ensures
        map_put(m, k, v) == m.push((k, v)),
    decreases m.len(),
{
    if m.len() == 0 {
        assert(map_put(m, k, v) =~= m.push((k, v)));
    } else {
        lemma_map_put_absent(m.drop_first(), k, v);
        assert(map_put(m, k, v) =~= m.push((k, v)));
    }
}

/// `map_put` of a key first found at index `i` updates that pair in place.
proof fn lemma_map_put_found<V>(m: Seq<(Seq<char>, V)>, k: Seq<char>, v: V, i: int)
    requires
        0 <= i < m.len(),
        m[i].0 == k,
        forall|j: int| 0 <= j < i ==> m[j].0 != k,
    ensures
        map_put(m, k, v) == m.update(i, (k, v)),
    decreases m.len(),
{
    if i == 0 {
        assert(map_put(m, k, v) =~= m.update(0, (k, v)));
    } else {
        lemma_map_put_found(m.drop_first(), k, v, i - 1);
        assert(map_put(m, k, v) =~= m.update(i, (k, v)));
    }
}

impl<K: MapKey, V: MapValue> NameMap<K, V> {
    /// The empty map.
    pub fn new() -> (r: Self)
        ensures
            r@ == Seq::<(Seq<char>, <V as View>::V)>::empty(),
    {
        let r = NameMap { pairs: Vec::new() };
        proof {
            assert(r@ =~= Seq::<(Seq<char>, <V as View>::V)>::empty());
        }
        r
    }

    /// How many pairs the map holds.
    pub fn len(&self) -> (n: usize)
        ensures
            n == self@.len(),
    {
        self.pairs.len()
    }

    /// The name of the pair at position `i`.
    pub fn key_at(&self, i: usize) -> (k: &K)
        requires
            i < self@.len(),
        ensures
            k@ == self@[i as int].0,
    {
        &self.pairs[i].0
    }

    /// The value of the pair at position `i`.
    pub fn val_at(&self, i: usize) -> (v: &V)
        requires
            i < self@.len(),
        ensures
            v@ == self@[i as int].1,
    {
        &self.pairs[i].1
    }

    /// Look the key up; the first pair holding it wins.
    pub fn get(&self, key: &K) -> (r: Option<&V>)
        ensures
            match r {
                Some(v) => map_get(self@, key@) == Some(v@),
                None => map_get(self@, key@) is None,
            },
    {
        let n = self.pairs.len();
        proof {
            assert(self@.skip(0) =~= self@);
        }
        for i in 0..n
            invariant
                n == self@.len(),
                map_get(self@, key@) == map_get(self@.skip(i as int), key@),
        {
            proof {
                assert(self@.skip(i as int)[0] == self@[i as int]);
            }
            if self.pairs[i].0.key_eq(key) {
                return Some(&self.pairs[i].1);
            }
            proof {
                assert(self@.skip(i as int).drop_first() =~= self@.skip(i as int + 1));
            }
        }
        None
    }

    /// Whether the key occurs in the map.
    pub fn contains_key(&self, key: &K) -> (r: bool)
        ensures
            r == map_has(self@, key@),
    {
        self.get(key).is_some()
    }

    /// Bind the key to the value, replacing an existing binding.
    pub fn insert(&mut self, key: K, value: V)
        ensures
            final(self)@ == map_put(old(self)@, key@, value@),
    {
        let n = self.pairs.len();
        for i in 0..n
            invariant
                n == self@.len(),
                self@ == old(self)@,
                forall|j: int| 0 <= j < i ==> self@[j].0 != key@,
        {
            if self.pairs[i].0.key_eq(&key) {
                proof {
                    lemma_map_put_found(old(self)@, key@, value@, i as int);
                }
                self.pairs[i] = (key, value);
                proof {
                    assert(final(self)@ =~= old(self)@.update(i as int, (key@, value@)));
                }
                return ;
            }
        }
        self.pairs.push((key, value));
        proof {
            lemma_map_put_absent(old(self)@, key@, value@);
            assert(final(self)@ =~= old(self)@.push((key@, value@)));
        }
    }

    /// A copy holding the same pairs.
    pub fn dup(&self) -> (r: Self)
        ensures
            r@ == self@,
    {
        let n = self.pairs.len();
        let mut pairs: Vec<(K, V)> = Vec::new();
        for i in 0..n
            invariant
                n == self@.len(),
                pairs_view(pairs@) =~= self@.take(i as int),
        {
            let ghost prev = pairs@;
            pairs.push((self.pairs[i].0.key_dup(), self.pairs[i].1.val_dup()));
            proof {
                assert(pairs_view(prev).len() == prev.len());
                assert(prev.len() == i as int);
                assert forall|j: int| 0 <= j <= i as int implies pairs_view(pairs@)[j] == self@[j] by {
                    if j < i as int {
                        assert(pairs@[j] == prev[j]);
                        assert(pairs_view(prev)[j] == self@.take(i as int)[j]);
                    }
                }
                assert(pairs_view(pairs@) =~= self@.take(i as int + 1));
            }
        }
        let r = NameMap { pairs };
        proof {
            assert(self@.take(n as int) =~= self@);
        }
        r
    }
}

} // verus!
